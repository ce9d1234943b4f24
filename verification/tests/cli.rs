use zed::cli::{
    exit_response, first_close_step, handle_cli_connection, handle_cli_items, is_stale_socket,
    keeps_waiting, next_close_step, open_workspaces, socket_name, url_responses, CliAction,
    CliItem, CliOpenRequest, CliResponse, CloseStep, OpenWorkspaces, SocketProbe, WaitEvent,
    WorkspaceGroup, WorkspaceOutcome, WorkspacesStep,
};
use zed::open_paths::SerializedWorkspaceLocation;
use zed::open_request::OpenRequestError;

fn strings(items: &[&str]) -> Vec<String> {
    items.iter().map(|item| item.to_string()).collect()
}

fn cli_request(urls: &[&str], paths: &[&str]) -> CliOpenRequest {
    CliOpenRequest {
        urls: strings(urls),
        paths: strings(paths),
        diff_paths: vec![["a".to_string(), "b".to_string()]],
        diff_all: true,
        wait: true,
        wsl: Some("Ubuntu".to_string()),
        open_new_workspace: Some(false),
        reuse: true,
        env: Some(vec![("K".to_string(), "V".to_string())]),
    }
}

fn group(path: &str) -> WorkspaceGroup {
    WorkspaceGroup {
        location: SerializedWorkspaceLocation::Local,
        paths: strings(&[path]),
    }
}

fn begin(reuse: bool, groups: Vec<WorkspaceGroup>) -> (OpenWorkspaces, WorkspacesStep) {
    let env = Some(vec![("K".to_string(), "V".to_string())]);
    let (mut workspaces, step) =
        open_workspaces(strings(&["p"]), &vec![], Some(false), reuse, true, env);
    assert!(matches!(step, WorkspacesStep::Group(paths) if paths == vec!["p"]));
    let step = workspaces.located(groups);
    (workspaces, step)
}

#[test]
fn urls_go_before_paths() {
    match handle_cli_connection(cli_request(&["u"], &["p"])) {
        CliAction::ReadUrls(raw) => {
            assert_eq!(raw.urls, vec!["u"]);
            assert_eq!(raw.diff_paths, vec![["a".to_string(), "b".to_string()]]);
            assert!(raw.diff_all);
            assert_eq!(raw.wsl.as_deref(), Some("Ubuntu"));
        }
        CliAction::OpenWorkspaces(_) => panic!("expected the URLs to be read"),
    }
    match handle_cli_connection(cli_request(&[], &["p"])) {
        CliAction::OpenWorkspaces(request) => {
            assert_eq!(request.paths, vec!["p"]);
            assert_eq!(request.open_new_workspace, Some(false));
            assert!(request.reuse && request.wait && request.diff_all);
        }
        CliAction::ReadUrls(_) => panic!("expected workspaces to be opened"),
    }
}

#[test]
fn the_tool_is_told_of_an_error_and_exits() {
    let responses = url_responses(None);
    assert_eq!(responses.len(), 1);
    assert!(matches!(responses[0], CliResponse::Exit { status: 0 }));
    let responses = url_responses(Some(&OpenRequestError::EmptyWslUser));
    assert_eq!(responses.len(), 2);
    match &responses[0] {
        CliResponse::Stderr { message } => assert_eq!(message, "user is empty in wsl argument"),
        other => panic!("unexpected response {:?}", other),
    }
    assert!(matches!(responses[1], CliResponse::Exit { status: 1 }));
    assert!(matches!(exit_response(true), CliResponse::Exit { status: 1 }));
    assert!(matches!(exit_response(false), CliResponse::Exit { status: 0 }));
}

#[test]
fn given_paths_are_one_local_workspace() {
    let (mut workspaces, step) =
        open_workspaces(strings(&["b", "a"]), &vec![], None, false, true, None);
    assert!(matches!(step, WorkspacesStep::Group(paths) if paths == vec!["b", "a"]));
    match workspaces.grouped(strings(&["a", "b"])) {
        WorkspacesStep::Open { group, options } => {
            assert!(matches!(group.location, SerializedWorkspaceLocation::Local));
            assert_eq!(group.paths, vec!["a", "b"]);
            assert!(options.wait);
            assert_eq!(options.open_new_workspace, None);
        }
        other => panic!("unexpected step {:?}", other),
    }
    assert!(workspaces.groups.is_empty());
    let (mut workspaces, _) =
        open_workspaces(strings(&["a"]), &vec![], None, true, true, None);
    match workspaces.grouped(strings(&["a"])) {
        WorkspacesStep::FindWindow(group) => {
            assert!(matches!(group.location, SerializedWorkspaceLocation::Local));
        }
        other => panic!("unexpected step {:?}", other),
    }
}

#[test]
fn workspaces_come_from_paths_or_the_last_session() {
    let step = |paths: &[&str], diffs: Vec<[String; 2]>, new: Option<bool>| {
        open_workspaces(strings(paths), &diffs, new, false, false, None).1
    };
    let pair = vec![["a".to_string(), "b".to_string()]];
    assert!(matches!(step(&["p"], vec![], Some(true)), WorkspacesStep::Group(p) if p == vec!["p"]));
    assert!(matches!(step(&[], pair, Some(true)), WorkspacesStep::Group(p) if p.is_empty()));
    assert!(matches!(
        step(&[], vec![], Some(true)),
        WorkspacesStep::AskFirstOpen
    ));
    assert!(matches!(
        step(&[], vec![], Some(false)),
        WorkspacesStep::Restore
    ));
    assert!(matches!(step(&[], vec![], None), WorkspacesStep::Restore));
}

#[test]
fn without_workspaces_the_first_launch_is_welcomed() {
    let (workspaces, step) = begin(false, vec![]);
    assert!(matches!(step, WorkspacesStep::AskFirstOpen));
    assert!(matches!(
        workspaces.first_open(&Ok(None)),
        WorkspacesStep::ShowOnboarding
    ));
    for stored in [Ok(Some("true".to_string())), Err("locked".to_string())] {
        match workspaces.first_open(&stored) {
            WorkspacesStep::OpenNewFile { env } => {
                assert_eq!(env, Some(vec![("K".to_string(), "V".to_string())]))
            }
            other => panic!("unexpected step {:?}", other),
        }
    }
}

#[test]
fn every_workspace_is_opened_and_one_failure_counts() {
    let (mut workspaces, mut step) = begin(false, vec![group("a"), group("b"), group("c")]);
    let mut opened = Vec::new();
    let mut told = Vec::new();
    let failed = loop {
        match step {
            WorkspacesStep::Open { group, options } => {
                assert_eq!(options.open_new_workspace, Some(false));
                assert_eq!(options.replace_window, None);
                assert!(options.wait);
                assert_eq!(options.env, Some(vec![("K".to_string(), "V".to_string())]));
                let outcome = if group.paths[0] == "b" {
                    WorkspaceOutcome::Failed {
                        message: "gone".to_string(),
                    }
                } else {
                    WorkspaceOutcome::Opened {
                        items_failed: false,
                    }
                };
                opened.push(group.paths[0].clone());
                let (response, next) = workspaces.opened(outcome);
                if let Some(CliResponse::Stderr { message }) = response {
                    told.push(message);
                }
                step = next;
            }
            WorkspacesStep::Finished { failed } => break failed,
            other => panic!("unexpected step {:?}", other),
        }
    };
    assert_eq!(opened, vec!["a", "b", "c"]);
    assert_eq!(told, vec!["error opening: gone"]);
    assert!(failed);
}

#[test]
fn failed_items_fail_the_whole() {
    let (mut workspaces, _) = begin(false, vec![group("a")]);
    let (response, step) = workspaces.opened(WorkspaceOutcome::Opened { items_failed: true });
    assert!(response.is_none());
    assert!(matches!(step, WorkspacesStep::Finished { failed: true }));
    let (mut workspaces, _) = begin(false, vec![group("a")]);
    let (_, step) = workspaces.opened(WorkspaceOutcome::Opened {
        items_failed: false,
    });
    assert!(matches!(step, WorkspacesStep::Finished { failed: false }));
}

#[test]
fn a_window_is_reused_where_the_tool_asks_for_it() {
    let (workspaces, step) = begin(true, vec![group("a")]);
    let WorkspacesStep::FindWindow(found) = step else {
        panic!("expected a window to be looked for")
    };
    assert_eq!(found.paths, vec!["a"]);
    match workspaces.window_found(found, &vec![4, 5]) {
        WorkspacesStep::Open { group, options } => {
            assert_eq!(group.paths, vec!["a"]);
            assert_eq!(options.open_new_workspace, Some(true));
            assert_eq!(options.replace_window, Some(4));
        }
        other => panic!("unexpected step {:?}", other),
    }
    match workspaces.window_found(group("b"), &vec![]) {
        WorkspacesStep::Open { options, .. } => {
            assert_eq!(options.open_new_workspace, Some(true));
            assert_eq!(options.replace_window, None);
        }
        other => panic!("unexpected step {:?}", other),
    }
}

#[test]
fn the_tool_waits_for_the_window_where_a_directory_is_open() {
    let decide = |wait: bool, dirs: &[bool], diffs: usize| {
        let mut looked = 0;
        let mut step = first_close_step(wait, dirs.len(), diffs);
        loop {
            match step {
                CloseStep::CheckPath { index } => {
                    looked += 1;
                    step = next_close_step(dirs.len(), index, dirs[index]);
                }
                CloseStep::Decided { wait_for_close } => return (wait_for_close, looked),
            }
        }
    };
    assert_eq!(decide(true, &[], 0), (true, 0));
    assert_eq!(decide(true, &[], 1), (false, 0));
    assert_eq!(decide(true, &[false, true, false], 0), (true, 2));
    assert_eq!(decide(true, &[false, false], 0), (false, 2));
    assert_eq!(decide(false, &[true], 0), (false, 0));
    assert_eq!(decide(false, &[], 0), (false, 0));
}

#[test]
fn failures_are_told_and_open_items_waited_for() {
    let items = || {
        vec![
            CliItem::Opened { item: 1 },
            CliItem::Failed {
                message: "x".to_string(),
            },
            CliItem::Absent,
            CliItem::Opened { item: 2 },
            CliItem::Failed {
                message: "y".to_string(),
            },
        ]
    };
    let plan = handle_cli_items(&items(), true);
    assert_eq!(plan.watch, vec![1, 2]);
    assert!(plan.errored);
    let messages: Vec<String> = plan
        .responses
        .into_iter()
        .map(|response| match response {
            CliResponse::Stderr { message } => message,
            other => panic!("unexpected response {:?}", other),
        })
        .collect();
    assert_eq!(messages, vec!["x", "y"]);
    let plan = handle_cli_items(&items(), false);
    assert!(plan.watch.is_empty());
    assert!(plan.errored);
    let plan = handle_cli_items(&vec![CliItem::Opened { item: 3 }, CliItem::Absent], true);
    assert_eq!(plan.watch, vec![3]);
    assert!(plan.responses.is_empty() && !plan.errored);
}

#[test]
fn waiting_ends_with_the_items_or_the_tool() {
    assert!(!keeps_waiting(WaitEvent::Released));
    assert!(keeps_waiting(WaitEvent::Pinged { sent: true }));
    assert!(!keeps_waiting(WaitEvent::Pinged { sent: false }));
}

#[test]
fn a_refused_socket_is_stale() {
    assert_eq!(socket_name("stable"), "zed-stable.sock");
    assert!(is_stale_socket(SocketProbe::Refused));
    assert!(!is_stale_socket(SocketProbe::Connected));
    assert!(!is_stale_socket(SocketProbe::OtherError));
}
