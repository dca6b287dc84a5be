use herdr::terminal_modes::clear_host_mouse_reporting;
use herdr::terminal_modes::disable_host_mouse_reporting_sequence;
use herdr::terminal_modes::reset_host_terminal_modes_into;

const MOUSE_MODES: [&str; 7] = ["1000", "1002", "1003", "1005", "1006", "1015", "1016"];

const EXPECTED_MOUSE_SEQUENCE: &[u8] =
    b"\x1b[?1006l\x1b[?1016l\x1b[?1015l\x1b[?1005l\x1b[?1003l\x1b[?1002l\x1b[?1000l";

#[test]
fn clears_all_known_host_mouse_modes() {
    let bytes = disable_host_mouse_reporting_sequence();
    let sequence = std::str::from_utf8(&bytes).unwrap();

    for mode in MOUSE_MODES {
        assert!(
            sequence.contains(&format!("\x1b[?{mode}l")),
            "missing mouse mode {mode}"
        );
    }
}

#[test]
fn reset_sequence_disables_all_host_protocols() {
    let mut buf = Vec::new();
    reset_host_terminal_modes_into(&mut buf).expect("reset writes succeed");
    let sequence = std::str::from_utf8(&buf).expect("reset sequence is valid UTF-8");

    // Mouse tracking modes.
    for mode in MOUSE_MODES {
        assert!(
            sequence.contains(&format!("\x1b[?{mode}l")),
            "reset missing mouse mode {mode}"
        );
    }
    // Focus event reporting.
    assert!(
        sequence.contains("\x1b[?1004l"),
        "reset missing focus event disable"
    );
    // Bracketed paste.
    assert!(
        sequence.contains("\x1b[?2004l"),
        "reset missing bracketed paste disable"
    );
    // Alternate screen.
    assert!(
        sequence.contains("\x1b[?1049l"),
        "reset missing alternate screen disable"
    );
    // Kitty keyboard protocol pop.
    assert!(
        sequence.contains("\x1b[>0u"),
        "reset missing kitty keyboard disable"
    );
    // modifyOtherKeys reset.
    assert!(
        sequence.contains("\x1b[>4;0m"),
        "reset missing modifyOtherKeys reset"
    );
    // Cursor visible.
    assert!(
        sequence.contains("\x1b[?25h"),
        "reset missing cursor visible"
    );
    // DECSCUSR reset.
    assert!(
        sequence.contains("\x1b[0 q"),
        "reset missing DECSCUSR reset"
    );
    // SGR reset.
    assert!(sequence.contains("\x1b[0m"), "reset missing SGR reset");
}

#[test]
fn mouse_sequence_is_exactly_the_documented_bytes() {
    assert_eq!(disable_host_mouse_reporting_sequence(), EXPECTED_MOUSE_SEQUENCE.to_vec());
}

#[test]
fn clear_appends_the_mouse_sequence_after_existing_bytes() {
    let mut buf = b"prefix".to_vec();
    assert!(clear_host_mouse_reporting(&mut buf).is_ok());
    let mut expected = b"prefix".to_vec();
    expected.extend_from_slice(EXPECTED_MOUSE_SEQUENCE);
    assert_eq!(buf, expected);
}

#[test]
fn reset_sequence_is_exactly_the_documented_bytes_in_order() {
    let mut buf = Vec::new();
    assert!(reset_host_terminal_modes_into(&mut buf).is_ok());
    let mut expected = EXPECTED_MOUSE_SEQUENCE.to_vec();
    expected.extend_from_slice(b"\x1b[?1004l\x1b[?2004l\x1b[?1049l");
    expected.extend_from_slice(b"\x1b[>0u");
    expected.extend_from_slice(b"\x1b[>4;0m");
    expected.extend_from_slice(b"\x1b[?1l\x1b>");
    expected.extend_from_slice(b"\x1b[?25h\x1b[0 q\x1b[0m");
    assert_eq!(buf, expected);
}

#[test]
fn reset_takes_cursor_keys_and_keypad_out_of_application_mode() {
    let mut buf = Vec::new();
    reset_host_terminal_modes_into(&mut buf).unwrap();
    let sequence = String::from_utf8(buf).unwrap();
    assert!(sequence.contains("\x1b[?1l"));
    assert!(sequence.contains("\x1b>"));
}

#[test]
fn reset_begins_with_the_mouse_reset() {
    let mut reset = Vec::new();
    reset_host_terminal_modes_into(&mut reset).unwrap();
    let mut mouse = Vec::new();
    clear_host_mouse_reporting(&mut mouse).unwrap();
    assert!(reset.starts_with(&mouse));
    assert!(reset.len() > mouse.len());
}

#[test]
fn reset_keeps_existing_buffer_contents() {
    let mut buf = vec![0xffu8, 0x00];
    reset_host_terminal_modes_into(&mut buf).unwrap();
    assert_eq!(&buf[..2], &[0xff, 0x00]);
    assert_eq!(&buf[2..9], b"\x1b[?1006");
}
