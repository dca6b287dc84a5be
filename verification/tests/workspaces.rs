use herdr::app::App;
use herdr::app::Event;
use herdr::app::LaunchError;
use herdr::app::Response;
use herdr::app::ResponseResult;
use herdr::app::WorkspaceCreateParams;
use herdr::app::WorkspaceRenameParams;
use herdr::app::WorkspaceTarget;
use herdr::workspace::GitSpaceMetadata;
use herdr::workspace::Tab;
use herdr::workspace::Workspace;
use herdr::workspace::WorktreeSpaceMembership;
use herdr::workspaces::creation_cwd;
use herdr::workspaces::parent_checkout_path_for_space;
use herdr::workspaces::workspace_not_found;

fn app_with_linked_worktree() -> App {
    let mut app = App::new();
    let mut ws = Workspace::new("issue".into());
    ws.worktree_space = Some(WorktreeSpaceMembership {
        key: "repo-key".into(),
        label: "herdr".into(),
        repo_root: "/repo/herdr".into(),
        checkout_path: "/repo/herdr-issue".into(),
        is_linked_worktree: true,
    });
    app.workspaces = vec![ws];
    app
}

fn space(key: &str, root: &str, linked: bool) -> GitSpaceMetadata {
    GitSpaceMetadata {
        key: key.into(),
        label: "repo".into(),
        repo_root: root.into(),
        is_linked_worktree: linked,
    }
}

fn target(id: &str) -> WorkspaceTarget {
    WorkspaceTarget {
        workspace_id: id.into(),
    }
}

fn create_params(cwd: &str, focus: bool, label: Option<&str>) -> WorkspaceCreateParams {
    WorkspaceCreateParams {
        cwd: Some(cwd.into()),
        focus,
        label: label.map(|l| l.to_string()),
        env: Vec::new(),
    }
}

fn three_workspaces() -> App {
    let mut app = App::new();
    app.workspaces = vec![
        Workspace::new("a".into()),
        Workspace::new("b".into()),
        Workspace::new("c".into()),
    ];
    app
}

#[test]
fn workspace_create_converts_existing_worktree_checkout_into_group() {
    let mut app = App::new();
    let mut child = Workspace::new("child".into());
    child.git_space = Some(space("repo-key", "/tmp/checkout", true));
    child.listed_worktrees = vec![
        Some(space("repo-key", "/tmp/repo", false)),
        Some(space("repo-key", "/tmp/checkout", true)),
    ];
    app.workspaces = vec![child];

    let mut created = Workspace::new("created".into());
    created.git_space = Some(space("repo-key", "/tmp/repo", false));
    let response = app.handle_workspace_create(
        "req".into(),
        create_params("/tmp/repo", false, None),
        "/fallback".into(),
        Ok(created),
    );

    let Response::Success {
        id,
        result: ResponseResult::WorkspaceCreated { workspace },
    } = response
    else {
        panic!("expected workspace_created response");
    };
    assert_eq!(id, "req");
    assert_eq!(app.workspaces.len(), 2);
    assert!(
        app.workspaces[0]
            .worktree_space()
            .unwrap()
            .is_linked_worktree
    );
    assert!(
        !app.workspaces[1]
            .worktree_space()
            .unwrap()
            .is_linked_worktree
    );
    assert!(workspace
        .worktree
        .as_ref()
        .is_some_and(|worktree| !worktree.is_linked_worktree));
    // The linked checkout points at the main checkout of its repository.
    assert_eq!(
        app.workspaces[0].worktree_space().unwrap().repo_root,
        "/tmp/repo"
    );
    assert_eq!(
        app.workspaces[0].worktree_space().unwrap().checkout_path,
        "/tmp/checkout"
    );
}

#[test]
fn api_workspace_close_closes_linked_worktree_workspace_only() {
    let mut app = app_with_linked_worktree();

    let response = app.handle_workspace_close(
        "req".into(),
        WorkspaceTarget {
            workspace_id: app.workspaces[0].id.clone(),
        },
    );

    let Response::Success { id, .. } = response else {
        panic!("expected success");
    };
    assert_eq!(id, "req");
    assert_eq!(app.request_remove_linked_worktree, None);
    assert!(app.workspaces.is_empty());
}

#[test]
fn api_workspace_close_event_includes_final_worktree_snapshot() {
    let mut app = App::new();
    app.workspaces = app_with_linked_worktree().workspaces;
    let workspace_id = app.workspaces[0].id.clone();

    let response = app.handle_workspace_close(
        "req".into(),
        WorkspaceTarget {
            workspace_id: workspace_id.clone(),
        },
    );

    let Response::Success { id, .. } = response else {
        panic!("expected success");
    };
    assert_eq!(id, "req");
    assert!(app.events.iter().any(|event| {
        matches!(
            event,
            Event::WorkspaceClosed {
                workspace_id: closed_id,
                workspace: Some(workspace),
            } if closed_id == &workspace_id
                && workspace
                    .worktree
                    .as_ref()
                    .is_some_and(|worktree| worktree.is_linked_worktree)
        )
    }));
}

#[test]
fn not_found_error_names_the_workspace() {
    let response = workspace_not_found("r1".into(), "w9");
    assert_eq!(
        response,
        Response::Error {
            id: "r1".into(),
            code: "workspace_not_found".into(),
            message: "workspace w9 not found".into(),
        }
    );
}

#[test]
fn unknown_workspace_is_not_found_and_nothing_changes() {
    let mut app = three_workspaces();
    for (response, _) in [
        (app.handle_workspace_get("g".into(), target("zz")), ()),
        (app.handle_workspace_focus("g".into(), target("zz")), ()),
        (app.handle_workspace_close("g".into(), target("zz")), ()),
        (
            app.handle_workspace_rename(
                "g".into(),
                WorkspaceRenameParams {
                    workspace_id: "zz".into(),
                    label: "x".into(),
                },
            ),
            (),
        ),
    ] {
        assert_eq!(
            response,
            Response::Error {
                id: "g".into(),
                code: "workspace_not_found".into(),
                message: "workspace zz not found".into(),
            }
        );
    }
    assert_eq!(app.workspaces.len(), 3);
    assert!(app.events.is_empty());
    assert_eq!(app.selected, 0);
    assert!(!app.session_save_pending);
}

#[test]
fn list_describes_every_workspace_in_order() {
    let mut app = three_workspaces();
    app.selected = 1;
    let response = app.handle_workspace_list("l".into());
    let Response::Success {
        id,
        result: ResponseResult::WorkspaceList { workspaces },
    } = response
    else {
        panic!("expected a list");
    };
    assert_eq!(id, "l");
    let ids: Vec<&str> = workspaces.iter().map(|w| w.workspace_id.as_str()).collect();
    assert_eq!(ids, vec!["a", "b", "c"]);
    let focused: Vec<bool> = workspaces.iter().map(|w| w.focused).collect();
    assert_eq!(focused, vec![false, true, false]);
}

#[test]
fn list_of_no_workspaces_is_empty() {
    let mut app = App::new();
    let response = app.handle_workspace_list("l".into());
    assert_eq!(
        response,
        Response::Success {
            id: "l".into(),
            result: ResponseResult::WorkspaceList {
                workspaces: Vec::new()
            },
        }
    );
}

#[test]
fn get_describes_the_named_workspace() {
    let mut app = three_workspaces();
    let response = app.handle_workspace_get("g".into(), target("c"));
    let Response::Success {
        result: ResponseResult::WorkspaceInfo { workspace },
        ..
    } = response
    else {
        panic!("expected info");
    };
    assert_eq!(workspace.workspace_id, "c");
    assert!(!workspace.focused);
    assert_eq!(workspace.label, None);
}

#[test]
fn focus_moves_the_selection() {
    let mut app = three_workspaces();
    let response = app.handle_workspace_focus("f".into(), target("b"));
    assert_eq!(app.selected, 1);
    let Response::Success {
        result: ResponseResult::WorkspaceInfo { workspace },
        ..
    } = response
    else {
        panic!("expected info");
    };
    assert!(workspace.focused);
    assert_eq!(workspace.workspace_id, "b");
}

#[test]
fn rename_then_get_shows_the_new_label() {
    let mut app = three_workspaces();
    let response = app.handle_workspace_rename(
        "r".into(),
        WorkspaceRenameParams {
            workspace_id: "b".into(),
            label: "build".into(),
        },
    );
    assert!(matches!(response, Response::Success { .. }));
    assert!(app.session_save_pending);
    assert_eq!(
        app.events,
        vec![Event::WorkspaceRenamed {
            workspace_id: "b".into(),
            label: "build".into(),
        }]
    );
    let Response::Success {
        result: ResponseResult::WorkspaceInfo { workspace },
        ..
    } = app.handle_workspace_get("g".into(), target("b"))
    else {
        panic!("expected info");
    };
    assert_eq!(workspace.label.as_deref(), Some("build"));
}

#[test]
fn close_moves_focus_and_forgets_plugin_panes() {
    let mut app = three_workspaces();
    app.workspaces[2].tabs = vec![
        Tab {
            pane_ids: vec![7, 8],
        },
        Tab { pane_ids: vec![9] },
    ];
    app.plugin_panes = vec![1, 8, 9, 10];
    app.selected = 0;
    let response = app.handle_workspace_close("c".into(), target("c"));
    assert_eq!(
        response,
        Response::Success {
            id: "c".into(),
            result: ResponseResult::Done,
        }
    );
    let ids: Vec<&str> = app.workspaces.iter().map(|w| w.id.as_str()).collect();
    assert_eq!(ids, vec!["a", "b"]);
    // The closed workspace was the last one: focus moves to the new last one.
    assert_eq!(app.selected, 1);
    assert_eq!(app.plugin_panes, vec![1, 10]);
    // The workspace can no longer be found.
    assert!(matches!(
        app.handle_workspace_get("g".into(), target("c")),
        Response::Error { .. }
    ));
}

#[test]
fn close_in_the_middle_keeps_the_focus_position() {
    let mut app = three_workspaces();
    app.handle_workspace_close("c".into(), target("a"));
    assert_eq!(app.selected, 0);
    assert_eq!(app.workspaces[0].id, "b");
}

#[test]
fn create_reports_invalid_environment() {
    let mut app = three_workspaces();
    let response = app.handle_workspace_create(
        "n".into(),
        create_params("/x", true, None),
        "/fallback".into(),
        Err(LaunchError::InvalidEnv {
            code: "invalid_env".into(),
            message: "bad key".into(),
        }),
    );
    assert_eq!(
        response,
        Response::Error {
            id: "n".into(),
            code: "invalid_env".into(),
            message: "bad key".into(),
        }
    );
    assert_eq!(app.workspaces.len(), 3);
    assert!(app.events.is_empty());
}

#[test]
fn create_reports_spawn_failure() {
    let mut app = App::new();
    let response = app.handle_workspace_create(
        "n".into(),
        create_params("/x", true, None),
        "/fallback".into(),
        Err(LaunchError::SpawnFailed {
            message: "no shell".into(),
        }),
    );
    assert_eq!(
        response,
        Response::Error {
            id: "n".into(),
            code: "workspace_create_failed".into(),
            message: "no shell".into(),
        }
    );
    assert!(app.workspaces.is_empty());
}

#[test]
fn create_applies_label_focus_and_announces_opening() {
    let mut app = three_workspaces();
    let response = app.handle_workspace_create(
        "n".into(),
        create_params("/x", true, Some("docs")),
        "/fallback".into(),
        Ok(Workspace::new("d".into())),
    );
    assert_eq!(app.workspaces.len(), 4);
    assert_eq!(app.selected, 3);
    assert_eq!(app.workspaces[3].custom_name.as_deref(), Some("docs"));
    let Response::Success {
        result: ResponseResult::WorkspaceCreated { workspace },
        ..
    } = response
    else {
        panic!("expected creation");
    };
    assert!(workspace.focused);
    assert_eq!(workspace.label.as_deref(), Some("docs"));
    assert_eq!(
        app.events,
        vec![Event::WorkspaceCreated {
            workspace_id: "d".into(),
            workspace,
        }]
    );
}

#[test]
fn create_without_focus_keeps_the_selection() {
    let mut app = three_workspaces();
    app.selected = 2;
    app.handle_workspace_create(
        "n".into(),
        create_params("/x", false, None),
        "/fallback".into(),
        Ok(Workspace::new("d".into())),
    );
    assert_eq!(app.selected, 2);
    assert_eq!(app.workspaces[3].custom_name, None);
}

#[test]
fn linked_worktrees_alone_form_no_group() {
    let mut app = App::new();
    let mut first = Workspace::new("one".into());
    first.git_space = Some(space("k", "/w1", true));
    app.workspaces = vec![first];
    let mut second = Workspace::new("two".into());
    second.git_space = Some(space("k", "/w2", true));
    app.handle_workspace_create("n".into(), create_params("/w2", false, None),
        "/fallback".into(), Ok(second));
    assert!(app.workspaces.iter().all(|w| w.worktree_space.is_none()));
    assert_eq!(app.events.len(), 1);
}

#[test]
fn a_single_checkout_forms_no_group() {
    let mut app = App::new();
    let mut only = Workspace::new("one".into());
    only.git_space = Some(space("k", "/repo", false));
    app.handle_workspace_create("n".into(), create_params("/repo", false, None),
        "/fallback".into(), Ok(only));
    assert!(app.workspaces[0].worktree_space.is_none());
}

#[test]
fn grouping_announces_existing_members_only() {
    let mut app = App::new();
    let mut other_repo = Workspace::new("other".into());
    other_repo.git_space = Some(space("other-key", "/elsewhere", false));
    let mut linked = Workspace::new("linked".into());
    linked.git_space = Some(space("k", "/wt", true));
    app.workspaces = vec![other_repo, linked];
    let mut main = Workspace::new("main".into());
    main.git_space = Some(space("k", "/repo", false));
    app.handle_workspace_create("n".into(), create_params("/repo", false, None),
        "/fallback".into(), Ok(main));

    assert!(app.workspaces[0].worktree_space.is_none());
    let linked_membership = app.workspaces[1].worktree_space.clone().unwrap();
    assert!(linked_membership.is_linked_worktree);
    // No listing was read, so the linked checkout is its own parent.
    assert_eq!(linked_membership.repo_root, "/wt");
    assert_eq!(app.events.len(), 2);
    assert_eq!(
        app.events[0],
        Event::WorkspaceWorktreeChanged {
            workspace_id: "linked".into(),
            worktree: linked_membership,
        }
    );
    assert!(matches!(app.events[1], Event::WorkspaceCreated { .. }));
}

#[test]
fn forming_a_group_again_changes_nothing() {
    let mut app = App::new();
    let mut linked = Workspace::new("linked".into());
    linked.git_space = Some(space("k", "/wt", true));
    app.workspaces = vec![linked];
    let mut main = Workspace::new("main".into());
    main.git_space = Some(space("k", "/repo", false));
    app.handle_workspace_create("n".into(), create_params("/repo", false, None),
        "/fallback".into(), Ok(main));
    let before = app.workspaces.clone();
    app.infer_workspace_worktree_group(1);
    assert_eq!(app.workspaces, before);
}

#[test]
fn parent_checkout_of_main_checkout_is_itself() {
    let main = space("k", "/repo", false);
    assert_eq!(
        parent_checkout_path_for_space(&main, &vec![Some(space("k", "/other", false))]),
        "/repo"
    );
}

#[test]
fn parent_checkout_of_linked_worktree_is_first_main_of_same_repo() {
    let linked = space("k", "/wt", true);
    let listed = vec![
        None,
        Some(space("other", "/x", false)),
        Some(space("k", "/wt", true)),
        Some(space("k", "/repo", false)),
        Some(space("k", "/repo2", false)),
    ];
    assert_eq!(parent_checkout_path_for_space(&linked, &listed), "/repo");
}

#[test]
fn parent_checkout_falls_back_to_the_worktree_itself() {
    let linked = space("k", "/wt", true);
    assert_eq!(parent_checkout_path_for_space(&linked, &Vec::new()), "/wt");
    assert_eq!(
        parent_checkout_path_for_space(&linked, &vec![Some(space("k", "/wt2", true))]),
        "/wt"
    );
}

#[test]
fn git_space_for_grouping_prefers_assigned_membership() {
    let mut app = app_with_linked_worktree();
    app.workspaces[0].git_space = Some(space("something-else", "/nowhere", false));
    let found = app.workspace_git_space_for_grouping(0).unwrap();
    assert_eq!(found.ws_idx, 0);
    assert_eq!(found.key, "repo-key");
    assert_eq!(found.parent_checkout_path, "/repo/herdr");
    assert_eq!(found.checkout_path, "/repo/herdr-issue");
    assert!(found.is_linked_worktree);
    assert!(app.workspace_git_space_for_grouping(1).is_none());
}

#[test]
fn duplicate_ids_resolve_to_the_first_workspace() {
    let mut app = App::new();
    app.workspaces = vec![Workspace::new("x".into()), Workspace::new("x".into())];
    assert_eq!(app.parse_workspace_id(&"x".to_string()), Some(0));
    assert_eq!(app.parse_workspace_id(&"y".to_string()), None);
}

#[test]
fn creation_cwd_prefers_the_requested_directory() {
    assert_eq!(creation_cwd(Some("/req".into()), "/fb".into()), "/req");
    assert_eq!(creation_cwd(None, "/fb".into()), "/fb");
}

#[test]
fn created_workspace_starts_in_the_requested_directory() {
    let mut app = three_workspaces();
    app.workspaces[0].identity_cwd = "/focused".into();
    app.handle_workspace_create(
        "n".into(),
        create_params("/requested", false, None),
        "/focused".into(),
        Ok(Workspace::new("d".into())),
    );
    assert_eq!(app.workspaces[3].identity_cwd, "/requested");
}

#[test]
fn created_workspace_without_a_request_starts_in_the_fallback() {
    let mut app = three_workspaces();
    let params = WorkspaceCreateParams {
        cwd: None,
        focus: false,
        label: None,
        env: Vec::new(),
    };
    app.handle_workspace_create(
        "n".into(),
        params,
        "/from-focused".into(),
        Ok(Workspace::new("d".into())),
    );
    assert_eq!(app.workspaces[3].identity_cwd, "/from-focused");
}
