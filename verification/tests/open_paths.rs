use zed::open_paths::{
    caret_positions, describe_error, diff_view_opened, directory_test, next_diff_step,
    open_paths_for_location, open_paths_with_positions, path_is_dir, remote_path_is_dir,
    ssh_options_filled, window_connection, CommandOutcome, DiffStep, ItemAction, LocationStep,
    OpenedItem, PathWithPosition, Point, SerializedWorkspaceLocation,
};
use zed::remote::{RemoteConnectionOptions, SshConnectionOptions, WslConnectionOptions};

fn at(path: u64, row: Option<u32>, column: Option<u32>) -> PathWithPosition {
    PathWithPosition { path, row, column }
}

fn ssh() -> SshConnectionOptions {
    SshConnectionOptions {
        host: "host".to_string(),
        username: None,
        port: None,
        password: None,
        args: None,
        port_forwards: None,
        nickname: None,
        upload_binary_over_ssh: true,
        connection_timeout: Some(9),
    }
}

#[test]
fn carets_count_from_zero_and_the_last_counts() {
    let carets = caret_positions(&vec![
        at(1, Some(10), Some(4)),
        at(2, Some(0), Some(0)),
        at(3, None, Some(5)),
        at(4, Some(7), None),
        at(1, Some(3), None),
        at(1, None, None),
    ]);
    assert_eq!(carets.get(&1), Some(&Point { row: 2, column: 0 }));
    assert_eq!(carets.get(&2), Some(&Point { row: 0, column: 0 }));
    assert_eq!(carets.get(&3), None);
    assert_eq!(carets.get(&4), Some(&Point { row: 6, column: 0 }));
    assert_eq!(carets.len(), 3);
}

#[test]
fn the_caret_goes_to_the_first_open_item_of_its_path() {
    let resolved = vec![
        at(1, Some(5), Some(2)),
        at(1, None, None),
        at(1, Some(9), None),
        at(2, None, None),
        at(3, Some(1), None),
    ];
    let items = vec![
        OpenedItem::Failed,
        OpenedItem::Opened,
        OpenedItem::Opened,
        OpenedItem::Opened,
        OpenedItem::Absent,
        OpenedItem::Opened,
    ];
    assert_eq!(
        open_paths_with_positions(&items, &resolved),
        vec![
            ItemAction::DescribeError,
            ItemAction::GoTo(Point { row: 8, column: 0 }),
            ItemAction::Leave,
            ItemAction::Leave,
            ItemAction::Leave,
        ]
    );
    assert_eq!(
        open_paths_with_positions(&vec![OpenedItem::Opened], &resolved),
        vec![ItemAction::GoTo(Point { row: 8, column: 0 })]
    );
    assert!(open_paths_with_positions(&items, &vec![]).is_empty());
}

#[test]
fn errors_say_which_path_they_are_about() {
    assert_eq!(
        describe_error("\"/a\"", "no such file"),
        "error opening \"/a\": no such file"
    );
}

#[test]
fn pairs_are_compared_together_or_one_by_one() {
    let steps = |pairs: usize, diff_all: bool| {
        let mut steps = Vec::new();
        loop {
            match next_diff_step(pairs, diff_all, steps.len()) {
                DiffStep::Finished => return steps,
                step => steps.push(step),
            }
        }
    };
    assert_eq!(steps(3, true), vec![DiffStep::OpenAll]);
    assert_eq!(
        steps(2, false),
        vec![
            DiffStep::OpenPair { index: 0 },
            DiffStep::OpenPair { index: 1 }
        ]
    );
    assert!(steps(0, true).is_empty());
    assert!(steps(0, false).is_empty());
    let mut items = vec![OpenedItem::Absent];
    diff_view_opened(&mut items, false);
    assert_eq!(items, vec![OpenedItem::Absent]);
    diff_view_opened(&mut items, true);
    assert_eq!(items, vec![OpenedItem::Absent, OpenedItem::Opened]);
}

#[test]
fn locations_decide_how_paths_are_opened() {
    assert!(matches!(
        open_paths_for_location(&SerializedWorkspaceLocation::Local),
        LocationStep::OpenLocal
    ));
    let location = SerializedWorkspaceLocation::Remote(RemoteConnectionOptions::Ssh(ssh()));
    match open_paths_for_location(&location) {
        LocationStep::FillSshOptions(options) => {
            assert_eq!(options, ssh());
            match ssh_options_filled(options) {
                LocationStep::OpenRemote(connection) => {
                    assert_eq!(connection, RemoteConnectionOptions::Ssh(ssh()))
                }
                other => panic!("unexpected step {:?}", other),
            }
        }
        other => panic!("unexpected step {:?}", other),
    }
    let wsl = RemoteConnectionOptions::Wsl(WslConnectionOptions {
        distro_name: "Ubuntu".to_string(),
        user: None,
    });
    match open_paths_for_location(&SerializedWorkspaceLocation::Remote(wsl.clone())) {
        LocationStep::OpenRemote(connection) => assert_eq!(connection, wsl),
        other => panic!("unexpected step {:?}", other),
    }
}

#[test]
fn directories_are_tested_over_the_first_windows_connection() {
    assert_eq!(window_connection(&vec![]), None);
    assert_eq!(window_connection(&vec![None, Some(2)]), None);
    assert_eq!(window_connection(&vec![Some(1), Some(2)]), Some(1));
    let command = directory_test("/home/me");
    assert_eq!(command.program, "test");
    assert_eq!(command.args, vec!["-d", "/home/me"]);
    assert!(remote_path_is_dir(CommandOutcome::Exited { success: true }));
    assert!(!remote_path_is_dir(CommandOutcome::Exited { success: false }));
    assert!(!remote_path_is_dir(CommandOutcome::NotBuilt));
    assert!(!remote_path_is_dir(CommandOutcome::NotSpawned));
    assert!(!remote_path_is_dir(CommandOutcome::NoStatus));
    assert!(path_is_dir(None));
    assert!(!path_is_dir(Some(CommandOutcome::NotSpawned)));
    assert!(path_is_dir(Some(CommandOutcome::Exited { success: true })));
}
