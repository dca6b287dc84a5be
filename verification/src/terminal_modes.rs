use vstd::prelude::*;

verus! {

/// The escape byte that opens every control sequence.
pub const ESC: u8 = 0x1b;

/// ASCII decimal digits of `n`, most significant first, with no leading zeros.
pub open spec fn decimal_digits(n: nat) -> Seq<u8>
    decreases n,
{
    if n < 10 {
        seq![(0x30 + n) as u8]
    } else {
        decimal_digits(n / 10).push((0x30 + n % 10) as u8)
    }
}

/// `ESC [ ? <mode> l`: DEC private mode reset (turns the mode off).
pub open spec fn private_mode_reset(mode: nat) -> Seq<u8> {
    seq![ESC, 0x5b, 0x3f] + decimal_digits(mode) + seq![0x6c]
}

/// `ESC [ ? <mode> h`: DEC private mode set (turns the mode on).
pub open spec fn private_mode_set(mode: nat) -> Seq<u8> {
    seq![ESC, 0x5b, 0x3f] + decimal_digits(mode) + seq![0x68]
}

/// `ESC [ > 0 u`: pop every level of the kitty keyboard protocol stack.
pub open spec fn kitty_keyboard_pop_all() -> Seq<u8> {
    seq![ESC, 0x5b, 0x3e, 0x30, 0x75]
}

/// `ESC [ > 4 ; 0 m`: reset modifyOtherKeys to its default (0).
pub open spec fn modify_other_keys_reset() -> Seq<u8> {
    seq![ESC, 0x5b, 0x3e, 0x34, 0x3b, 0x30, 0x6d]
}

/// `ESC >`: DECKPNM, the keypad back in numeric (not application) mode.
pub open spec fn keypad_numeric_mode() -> Seq<u8> {
    seq![ESC, 0x3e]
}

/// `ESC [ 0 SP q`: DECSCUSR, restore the terminal's default cursor shape.
pub open spec fn cursor_style_default() -> Seq<u8> {
    seq![ESC, 0x5b, 0x30, 0x20, 0x71]
}

/// `ESC [ 0 m`: SGR reset of all character attributes.
pub open spec fn sgr_reset() -> Seq<u8> {
    seq![ESC, 0x5b, 0x30, 0x6d]
}

/// Every mouse tracking mode, turned off in this order:
/// SGR (1006), SGR pixels (1016), urxvt (1015), UTF-8 (1005),
/// any-event (1003), button-event (1002) and normal tracking (1000).
pub open spec fn disable_host_mouse_reporting_spec() -> Seq<u8> {
    private_mode_reset(1006) + private_mode_reset(1016) + private_mode_reset(1015)
        + private_mode_reset(1005) + private_mode_reset(1003) + private_mode_reset(1002)
        + private_mode_reset(1000)
}

/// The full reset of host terminal modes: mouse tracking off, focus
/// reporting (1004), bracketed paste (2004) and the alternate screen (1049)
/// off, kitty keyboard levels popped, modifyOtherKeys reset, cursor keys
/// (1) and keypad out of application mode, cursor shown (25), cursor shape
/// and character attributes back to their defaults.
pub open spec fn host_terminal_reset_spec() -> Seq<u8> {
    disable_host_mouse_reporting_spec() + private_mode_reset(1004) + private_mode_reset(2004)
        + private_mode_reset(1049) + kitty_keyboard_pop_all() + modify_other_keys_reset()
        + private_mode_reset(1) + keypad_numeric_mode() + private_mode_set(25)
        + cursor_style_default() + sgr_reset()
}

/// `needle` occurs as a contiguous run of bytes in `haystack`.
pub open spec fn contains_run(haystack: Seq<u8>, needle: Seq<u8>) -> bool {
    exists|i: int|
        0 <= i && i + needle.len() <= haystack.len() && #[trigger] haystack.subrange(
            i,
            i + needle.len(),
        ) == needle
}

/// Appends the decimal digits of `n`.
fn push_decimal(out: &mut Vec<u8>, n: u16)
    ensures
        final(out)@ == old(out)@ + decimal_digits(n as nat),
    decreases n,
{
    if n >= 10 {
        push_decimal(out, n / 10);
    }
    out.push(0x30 + (n % 10) as u8);
    proof {
        if n < 10 {
            assert(decimal_digits(n as nat) == seq![(0x30 + n) as u8]);
        }
    }
}

/// Appends `bytes`.
fn append_bytes(out: &mut Vec<u8>, bytes: &[u8])
    ensures
        final(out)@ == old(out)@ + bytes@,
{
    let ghost start = out@;
    let mut i: usize = 0;
    while i < bytes.len()
        invariant
            i <= bytes@.len(),
            out@ == start + bytes@.take(i as int),
        decreases bytes@.len() - i,
    {
        out.push(bytes[i]);
        i = i + 1;
        assert(bytes@.take(i as int) == bytes@.take(i - 1).push(bytes@[i - 1]));
    }
    assert(bytes@.take(i as int) == bytes@);
}

/// Appends `ESC [ ? <mode> l`.
fn write_private_mode_reset(out: &mut Vec<u8>, mode: u16)
    ensures
        final(out)@ == old(out)@ + private_mode_reset(mode as nat),
{
    out.push(ESC);
    out.push(0x5b);
    out.push(0x3f);
    push_decimal(out, mode);
    out.push(0x6c);
    assert(out@ == old(out)@ + private_mode_reset(mode as nat));
}

/// Appends the mouse tracking reset sequence.
fn write_mouse_reporting_disable(out: &mut Vec<u8>)
    ensures
        final(out)@ == old(out)@ + disable_host_mouse_reporting_spec(),
{
    write_private_mode_reset(out, 1006);
    write_private_mode_reset(out, 1016);
    write_private_mode_reset(out, 1015);
    write_private_mode_reset(out, 1005);
    write_private_mode_reset(out, 1003);
    write_private_mode_reset(out, 1002);
    write_private_mode_reset(out, 1000);
}

/// Declares std's `std::io::Error` so that the writers can return an
/// `io::Result` as writers do; nothing is claimed of its values, and no
/// verified function here produces one.
#[verifier::external_type_specification]
#[verifier::external_body]
pub struct ExIoError(std::io::Error);

/// The bytes that turn off every host mouse tracking mode.
pub fn disable_host_mouse_reporting_sequence() -> (bytes: Vec<u8>)
    ensures
        bytes@ == disable_host_mouse_reporting_spec(),
{
    let mut bytes: Vec<u8> = Vec::new();
    write_mouse_reporting_disable(&mut bytes);
    bytes
}

/// Writes the mouse tracking reset sequence to `writer`. Writing into an
/// in-memory buffer cannot fail, so the result is always `Ok`.
pub fn clear_host_mouse_reporting(writer: &mut Vec<u8>) -> (r: Result<(), std::io::Error>)
    ensures
        r is Ok,
        final(writer)@ == old(writer)@ + disable_host_mouse_reporting_spec(),
{
    write_mouse_reporting_disable(writer);
    Ok(())
}

/// Writes the full reset sequence for every host terminal mode to `writer`.
/// Writing into an in-memory buffer cannot fail, so the result is always `Ok`.
pub fn reset_host_terminal_modes_into(writer: &mut Vec<u8>) -> (r: Result<(), std::io::Error>)
    ensures
        r is Ok,
        final(writer)@ == old(writer)@ + host_terminal_reset_spec(),
{
    // Disable all mouse tracking modes.
    write_mouse_reporting_disable(writer);
    // Disable focus event reporting, bracketed paste, alternate screen.
    write_private_mode_reset(writer, 1004);
    write_private_mode_reset(writer, 2004);
    write_private_mode_reset(writer, 1049);
    // Pop all kitty keyboard protocol levels (back to legacy mode).
    append_bytes(writer, &[ESC, 0x5b, 0x3e, 0x30, 0x75]);
    // Reset modifyOtherKeys to the default (0).
    append_bytes(writer, &[ESC, 0x5b, 0x3e, 0x34, 0x3b, 0x30, 0x6d]);
    // Cursor keys and keypad out of application mode.
    write_private_mode_reset(writer, 1);
    append_bytes(writer, &[ESC, 0x3e]);
    // Show cursor, reset DECSCUSR to terminal default, reset SGR attributes.
    write_private_mode_set(writer, 25);
    append_bytes(writer, &[ESC, 0x5b, 0x30, 0x20, 0x71]);
    append_bytes(writer, &[ESC, 0x5b, 0x30, 0x6d]);
    Ok(())
}

/// Appends `ESC [ ? <mode> h`.
fn write_private_mode_set(out: &mut Vec<u8>, mode: u16)
    ensures
        final(out)@ == old(out)@ + private_mode_set(mode as nat),
{
    out.push(ESC);
    out.push(0x5b);
    out.push(0x3f);
    push_decimal(out, mode);
    out.push(0x68);
    assert(out@ == old(out)@ + private_mode_set(mode as nat));
}

/// A run placed right after a prefix occurs in the result.
proof fn lemma_run_after(prefix: Seq<u8>, run: Seq<u8>)
    ensures
        contains_run(prefix + run, run),
{
    let i = prefix.len() as int;
    assert((prefix + run).subrange(i, i + run.len()) =~= run);
}

/// Appending bytes keeps every run that already occurred.
proof fn lemma_run_kept(haystack: Seq<u8>, more: Seq<u8>, run: Seq<u8>)
    requires
        contains_run(haystack, run),
    ensures
        contains_run(haystack + more, run),
{
    let i = choose|i: int|
        0 <= i && i + run.len() <= haystack.len() && #[trigger] haystack.subrange(
            i,
            i + run.len(),
        ) == run;
    assert((haystack + more).subrange(i, i + run.len()) =~= haystack.subrange(i, i + run.len()));
}

/// The mouse tracking modes that the host terminal may have been left in.
pub open spec fn is_mouse_reporting_mode(mode: nat) -> bool {
    mode == 1000 || mode == 1002 || mode == 1003 || mode == 1005 || mode == 1006 || mode == 1015
        || mode == 1016
}

/// The mouse reset sequence turns off every mouse tracking mode:
/// 1000, 1002, 1003, 1005, 1006, 1015 and 1016.
pub proof fn mouse_reset_disables_every_mouse_mode(mode: nat)
    requires
        is_mouse_reporting_mode(mode),
    ensures
        contains_run(disable_host_mouse_reporting_spec(), private_mode_reset(mode)),
{
    let r1006 = private_mode_reset(1006);
    let r1016 = private_mode_reset(1016);
    let r1015 = private_mode_reset(1015);
    let r1005 = private_mode_reset(1005);
    let r1003 = private_mode_reset(1003);
    let r1002 = private_mode_reset(1002);
    let r1000 = private_mode_reset(1000);
    let s1 = r1006;
    let s2 = s1 + r1016;
    let s3 = s2 + r1015;
    let s4 = s3 + r1005;
    let s5 = s4 + r1003;
    let s6 = s5 + r1002;
    let s7 = s6 + r1000;
    assert(s7 == disable_host_mouse_reporting_spec());
    if mode == 1006 {
        assert(contains_run(s1, r1006)) by {
            lemma_run_after(Seq::<u8>::empty(), r1006);
            assert(Seq::<u8>::empty() + r1006 =~= r1006);
        }
        lemma_run_kept(s1, r1016, r1006);
        lemma_run_kept(s2, r1015, r1006);
        lemma_run_kept(s3, r1005, r1006);
        lemma_run_kept(s4, r1003, r1006);
        lemma_run_kept(s5, r1002, r1006);
        lemma_run_kept(s6, r1000, r1006);
    } else if mode == 1016 {
        lemma_run_after(s1, r1016);
        lemma_run_kept(s2, r1015, r1016);
        lemma_run_kept(s3, r1005, r1016);
        lemma_run_kept(s4, r1003, r1016);
        lemma_run_kept(s5, r1002, r1016);
        lemma_run_kept(s6, r1000, r1016);
    } else if mode == 1015 {
        lemma_run_after(s2, r1015);
        lemma_run_kept(s3, r1005, r1015);
        lemma_run_kept(s4, r1003, r1015);
        lemma_run_kept(s5, r1002, r1015);
        lemma_run_kept(s6, r1000, r1015);
    } else if mode == 1005 {
        lemma_run_after(s3, r1005);
        lemma_run_kept(s4, r1003, r1005);
        lemma_run_kept(s5, r1002, r1005);
        lemma_run_kept(s6, r1000, r1005);
    } else if mode == 1003 {
        lemma_run_after(s4, r1003);
        lemma_run_kept(s5, r1002, r1003);
        lemma_run_kept(s6, r1000, r1003);
    } else if mode == 1002 {
        lemma_run_after(s5, r1002);
        lemma_run_kept(s6, r1000, r1002);
    } else {
        lemma_run_after(s6, r1000);
    }
}

/// The full reset begins with the mouse tracking reset.
pub proof fn host_reset_begins_with_mouse_reset()
    ensures
        disable_host_mouse_reporting_spec().is_prefix_of(host_terminal_reset_spec()),
{
}

/// The full reset turns off every mode the client can leave on: all mouse
/// tracking modes, focus event reporting (1004), bracketed paste (2004) and
/// the alternate screen (1049); it pops the kitty keyboard protocol, resets
/// modifyOtherKeys, takes cursor keys (1) and the keypad out of application
/// mode, shows the cursor (25) and resets the cursor shape and character
/// attributes.
pub proof fn host_reset_disables_every_host_protocol(mouse_mode: nat)
    requires
        is_mouse_reporting_mode(mouse_mode),
    ensures
        contains_run(host_terminal_reset_spec(), private_mode_reset(mouse_mode)),
        contains_run(host_terminal_reset_spec(), private_mode_reset(1004)),
        contains_run(host_terminal_reset_spec(), private_mode_reset(2004)),
        contains_run(host_terminal_reset_spec(), private_mode_reset(1049)),
        contains_run(host_terminal_reset_spec(), kitty_keyboard_pop_all()),
        contains_run(host_terminal_reset_spec(), modify_other_keys_reset()),
        contains_run(host_terminal_reset_spec(), private_mode_reset(1)),
        contains_run(host_terminal_reset_spec(), keypad_numeric_mode()),
        contains_run(host_terminal_reset_spec(), private_mode_set(25)),
        contains_run(host_terminal_reset_spec(), cursor_style_default()),
        contains_run(host_terminal_reset_spec(), sgr_reset()),
{
    let parts = seq![
        disable_host_mouse_reporting_spec(),
        private_mode_reset(1004),
        private_mode_reset(2004),
        private_mode_reset(1049),
        kitty_keyboard_pop_all(),
        modify_other_keys_reset(),
        private_mode_reset(1),
        keypad_numeric_mode(),
        private_mode_set(25),
        cursor_style_default(),
        sgr_reset(),
    ];
    assert(concat_all(parts) == host_terminal_reset_spec()) by {
        reveal_with_fuel(concat_all, 12);
    }
    mouse_reset_disables_every_mouse_mode(mouse_mode);
    assert(concat_all(parts.take(1)) == disable_host_mouse_reporting_spec()) by {
        reveal_with_fuel(concat_all, 2);
        assert(parts.take(1).drop_last() =~= Seq::<Seq<u8>>::empty());
        assert(parts.take(1).last() == parts[0]);
        assert(Seq::<u8>::empty() + parts[0] =~= parts[0]);
    }
    lemma_run_in_prefix_kept(parts, 1, private_mode_reset(mouse_mode));
    assert forall|k: int| 0 <= k < parts.len() implies contains_run(
        concat_all(parts),
        #[trigger] parts[k],
    ) by {
        lemma_part_occurs(parts, k);
    }
    assert(parts[1] == private_mode_reset(1004));
    assert(parts[2] == private_mode_reset(2004));
    assert(parts[3] == private_mode_reset(1049));
    assert(parts[4] == kitty_keyboard_pop_all());
    assert(parts[5] == modify_other_keys_reset());
    assert(parts[6] == private_mode_reset(1));
    assert(parts[7] == keypad_numeric_mode());
    assert(parts[8] == private_mode_set(25));
    assert(parts[9] == cursor_style_default());
    assert(parts[10] == sgr_reset());
}

/// The byte runs of `parts`, one after another.
pub open spec fn concat_all(parts: Seq<Seq<u8>>) -> Seq<u8>
    decreases parts.len(),
{
    if parts.len() == 0 {
        Seq::empty()
    } else {
        concat_all(parts.drop_last()) + parts.last()
    }
}

/// The concatenation of the first `n` parts starts the concatenation of all.
proof fn lemma_concat_prefix(parts: Seq<Seq<u8>>, n: int)
    requires
        0 <= n <= parts.len(),
    ensures
        exists|rest: Seq<u8>| concat_all(parts) == #[trigger] (concat_all(parts.take(n)) + rest),
    decreases parts.len() - n,
{
    if n == parts.len() {
        assert(parts.take(n) =~= parts);
        assert(concat_all(parts) == concat_all(parts.take(n)) + Seq::<u8>::empty());
    } else {
        lemma_concat_prefix(parts, n + 1);
        let rest = choose|rest: Seq<u8>| concat_all(parts) == #[trigger] (concat_all(parts.take(n + 1)) + rest);
        assert(parts.take(n + 1).drop_last() =~= parts.take(n));
        assert(concat_all(parts.take(n + 1)) == concat_all(parts.take(n)) + parts[n]);
        assert(concat_all(parts) == concat_all(parts.take(n)) + (parts[n] + rest));
    }
}

/// A run that occurs in the first `n` parts occurs in the concatenation of all.
proof fn lemma_run_in_prefix_kept(parts: Seq<Seq<u8>>, n: int, run: Seq<u8>)
    requires
        0 <= n <= parts.len(),
        contains_run(concat_all(parts.take(n)), run),
    ensures
        contains_run(concat_all(parts), run),
{
    lemma_concat_prefix(parts, n);
    let rest = choose|rest: Seq<u8>| concat_all(parts) == #[trigger] (concat_all(parts.take(n)) + rest);
    lemma_run_kept(concat_all(parts.take(n)), rest, run);
}

/// Every part occurs in the concatenation.
proof fn lemma_part_occurs(parts: Seq<Seq<u8>>, k: int)
    requires
        0 <= k < parts.len(),
    ensures
        contains_run(concat_all(parts), parts[k]),
{
    let prefix = parts.take(k + 1);
    assert(prefix.drop_last() =~= parts.take(k));
    assert(concat_all(prefix) == concat_all(parts.take(k)) + parts[k]);
    lemma_run_after(concat_all(parts.take(k)), parts[k]);
    lemma_run_in_prefix_kept(parts, k + 1, parts[k]);
}

} // verus!
