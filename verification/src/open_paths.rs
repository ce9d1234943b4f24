//! Opening paths: where, as what, and with the caret at which place.
use crate::open_laws::law_caret_of_path;
use crate::remote::{RemoteConnectionOptions, RemoteView, SshConnectionOptions};
use crate::text::strings_view;
use std::collections::HashMap;
use vstd::prelude::*;
use vstd::string::*;

verus! {

broadcast use vstd::std_specs::hash::group_hash_axioms;

/// Where a workspace is.
#[derive(Debug)]
pub enum SerializedWorkspaceLocation {
    Local,
    Remote(RemoteConnectionOptions),
}

/// Where a workspace is, by its characters.
pub enum LocationView {
    Local,
    Remote(RemoteView),
}

impl View for SerializedWorkspaceLocation {
    type V = LocationView;

    open spec fn view(&self) -> LocationView {
        match *self {
            SerializedWorkspaceLocation::Local => LocationView::Local,
            SerializedWorkspaceLocation::Remote(connection) => LocationView::Remote(connection@),
        }
    }
}

/// What is to be done to open paths at a location.
#[derive(Debug)]
pub enum LocationStep {
    /// Open a local workspace.
    OpenLocal,
    /// Fill in what the settings say of the host, and go on with that.
    FillSshOptions(SshConnectionOptions),
    /// Open the project over the connection.
    OpenRemote(RemoteConnectionOptions),
}

/// Whether `step` is how paths are opened at a location.
pub open spec fn opens_at(location: LocationView, step: LocationStep) -> bool {
    match location {
        LocationView::Local => step is OpenLocal,
        LocationView::Remote(RemoteView::Ssh(options)) => step
            matches LocationStep::FillSshOptions(given) && given@ == options,
        LocationView::Remote(RemoteView::Wsl(options)) => step
            matches LocationStep::OpenRemote(given) && given@ == RemoteView::Wsl(options),
    }
}

/// Decides how paths are opened at a location.
pub fn open_paths_for_location(location: &SerializedWorkspaceLocation) -> (r: LocationStep)
    ensures
        opens_at(location@, r),
{
    match location {
        SerializedWorkspaceLocation::Local => LocationStep::OpenLocal,
        SerializedWorkspaceLocation::Remote(connection) => match connection {
            RemoteConnectionOptions::Ssh(options) => LocationStep::FillSshOptions(options.clone()),
            RemoteConnectionOptions::Wsl(_) => LocationStep::OpenRemote(connection.clone()),
        },
    }
}

/// Goes on with the options of a host as the settings have filled them in.
pub fn ssh_options_filled(options: SshConnectionOptions) -> (r: LocationStep)
    ensures
        r == LocationStep::OpenRemote(RemoteConnectionOptions::Ssh(options)),
{
    LocationStep::OpenRemote(RemoteConnectionOptions::Ssh(options))
}

/// The connection over which a location's paths are looked at: that of the
/// first window at the location. Of each window the number of its connection
/// is given if it has one.
pub fn window_connection(windows: &Vec<Option<u64>>) -> (r: Option<u64>)
    ensures
        r == if windows@.len() == 0 {
            None
        } else {
            windows@[0]
        },
{
    if windows.len() == 0 {
        None
    } else {
        windows[0]
    }
}

/// A command with its arguments.
#[derive(Debug)]
pub struct RemoteCommand {
    pub program: String,
    pub args: Vec<String>,
}

/// The command that succeeds where `path` is a directory.
pub fn directory_test(path: &str) -> (r: RemoteCommand)
    ensures
        r.program@ == "test"@,
        strings_view(r.args@) == seq!["-d"@, path@],
{
    let mut args: Vec<String> = Vec::new();
    args.push("-d".to_owned());
    args.push(path.to_owned());
    assert(strings_view(args@) =~= seq!["-d"@, path@]);
    RemoteCommand { program: "test".to_owned(), args }
}

/// How far running a command came.
#[derive(Debug, Clone, Copy, PartialEq, Eq, Structural)]
pub enum CommandOutcome {
    /// The connection could not say how to run it.
    NotBuilt,
    NotSpawned,
    /// It ran, but its status is not known.
    NoStatus,
    Exited { success: bool },
}

/// Whether a path is a directory, from the command that tests it.
pub fn remote_path_is_dir(outcome: CommandOutcome) -> (r: bool)
    ensures
        r == (outcome == CommandOutcome::Exited { success: true }),
{
    match outcome {
        CommandOutcome::Exited { success } => success,
        _ => false,
    }
}

/// Whether a remote path is taken for a directory: without a connection it is.
pub fn path_is_dir(outcome: Option<CommandOutcome>) -> (r: bool)
    ensures
        r == (outcome is None || outcome == Some(CommandOutcome::Exited { success: true })),
{
    match outcome {
        None => true,
        Some(outcome) => remote_path_is_dir(outcome),
    }
}

/// A path, by its number, with the place in it that was asked for. Rows and
/// columns count from one. Equal paths have equal numbers.
#[derive(Debug, Clone, Copy, PartialEq, Eq, Structural)]
pub struct PathWithPosition {
    pub path: u64,
    pub row: Option<u32>,
    pub column: Option<u32>,
}

/// A place in a text. Rows and columns count from zero.
#[derive(Debug, Clone, Copy, PartialEq, Eq, Structural)]
pub struct Point {
    pub row: u32,
    pub column: u32,
}

/// A row or column that counts from one, as it counts from zero.
pub open spec fn from_zero(n: u32) -> u32 {
    if n == 0 {
        0
    } else {
        (n - 1) as u32
    }
}

/// The place that was asked for, if a row was given.
pub open spec fn caret_of(position: PathWithPosition) -> Option<Point> {
    match position.row {
        Some(row) => Some(
            Point {
                row: from_zero(row),
                column: match position.column {
                    Some(column) => from_zero(column),
                    None => 0,
                },
            },
        ),
        None => None,
    }
}

/// Where the caret goes in `path`: to the last place that was asked for in it.
pub open spec fn caret_for(resolved: Seq<PathWithPosition>, path: u64) -> Option<Point>
    decreases resolved.len(),
{
    if resolved.len() == 0 {
        None
    } else if resolved.last().path == path && resolved.last().row is Some {
        caret_of(resolved.last())
    } else {
        caret_for(resolved.drop_last(), path)
    }
}

/// Whether `k` is the last position in `resolved` that gives a row in `path`.
pub open spec fn is_last_asked(resolved: Seq<PathWithPosition>, path: u64, k: int) -> bool {
    &&& 0 <= k < resolved.len()
    &&& resolved[k].path == path
    &&& resolved[k].row is Some
    &&& forall|j: int|
        k < j < resolved.len() && (#[trigger] resolved[j]).path == path ==> resolved[j].row is None
}

/// What a map holds for a key.
pub open spec fn entry(map: Map<u64, Point>, path: u64) -> Option<Point> {
    if map.contains_key(path) {
        Some(map[path])
    } else {
        None
    }
}

/// Where the caret goes, path by path.
pub fn caret_positions(resolved: &Vec<PathWithPosition>) -> (r: HashMap<u64, Point>)
    ensures
        forall|path: u64| #[trigger] entry(r@, path) == caret_for(resolved@, path),
        forall|path: u64, k: int| #[trigger]
            is_last_asked(resolved@, path, k) ==> r@.contains_key(path) && (
            resolved@[k].row->0 >= 1 ==> r@[path].row == resolved@[k].row->0 - 1) && (
            resolved@[k].column is Some && resolved@[k].column->0 >= 1 ==> r@[path].column
                == resolved@[k].column->0 - 1),
{
    let mut r: HashMap<u64, Point> = HashMap::new();
    let mut i: usize = 0;
    while i < resolved.len()
        invariant
            i <= resolved.len(),
            forall|path: u64| #[trigger]
                entry(r@, path) == caret_for(resolved@.take(i as int), path),
        decreases resolved.len() - i,
    {
        let position = resolved[i];
        let ghost before = r@;
        if let Some(row) = position.row {
            let row: u32 = if row == 0 {
                0
            } else {
                row - 1
            };
            let column: u32 = match position.column {
                Some(column) => if column == 0 {
                    0
                } else {
                    column - 1
                },
                None => 0,
            };
            r.insert(position.path, Point { row, column });
        }
        proof {
            assert(resolved@.take(i + 1).drop_last() =~= resolved@.take(i as int));
            assert forall|path: u64| #[trigger]
                entry(r@, path) == caret_for(resolved@.take(i + 1), path) by {
                assert(entry(before, path) == caret_for(resolved@.take(i as int), path));
            }
        }
        i = i + 1;
    }
    proof {
        assert(resolved@.take(i as int) =~= resolved@);
        assert forall|path: u64, k: int| #[trigger]
            is_last_asked(resolved@, path, k) implies r@.contains_key(path) && (
        resolved@[k].row->0 >= 1 ==> r@[path].row == resolved@[k].row->0 - 1) && (
        resolved@[k].column is Some && resolved@[k].column->0 >= 1 ==> r@[path].column
            == resolved@[k].column->0 - 1) by {
            law_caret_of_path(resolved@, path, k);
            assert(entry(r@, path) == caret_for(resolved@, path));
        }
    }
    r
}

/// What became of a path that was to be opened.
#[derive(Debug, Clone, Copy, PartialEq, Eq, Structural)]
pub enum OpenedItem {
    Absent,
    Failed,
    Opened,
}

/// What is still to be done with an item.
#[derive(Debug, Clone, Copy, PartialEq, Eq, Structural)]
pub enum ItemAction {
    Leave,
    /// Say in the error which path it is about.
    DescribeError,
    /// Put the caret there, if the item is an editor.
    GoTo(Point),
}

/// Whether one of the first `n` items is open on `path`.
pub open spec fn is_open_before(
    items: Seq<OpenedItem>,
    resolved: Seq<PathWithPosition>,
    n: int,
    path: u64,
) -> bool {
    exists|j: int|
        0 <= j < n && #[trigger] items[j] == OpenedItem::Opened && resolved[j].path == path
}

/// What is still to be done with item `i`. The caret is put into the first
/// item that is open on its path.
pub open spec fn action_for(
    items: Seq<OpenedItem>,
    resolved: Seq<PathWithPosition>,
    i: int,
) -> ItemAction {
    match items[i] {
        OpenedItem::Absent => ItemAction::Leave,
        OpenedItem::Failed => ItemAction::DescribeError,
        OpenedItem::Opened => match caret_for(resolved, resolved[i].path) {
            Some(point) if !is_open_before(items, resolved, i, resolved[i].path) =>
                ItemAction::GoTo(point),
            _ => ItemAction::Leave,
        },
    }
}

/// Decides what is still to be done with the items of the resolved paths.
/// Items behind the last path and paths behind the last item are passed over.
pub fn open_paths_with_positions(
    items: &Vec<OpenedItem>,
    resolved: &Vec<PathWithPosition>,
) -> (r: Vec<ItemAction>)
    ensures
        r@.len() == if items@.len() <= resolved@.len() {
            items@.len()
        } else {
            resolved@.len()
        },
        forall|i: int|
            0 <= i < r@.len() ==> #[trigger] r@[i] == action_for(items@, resolved@, i),
{
    let mut carets = caret_positions(resolved);
    let mut r: Vec<ItemAction> = Vec::new();
    let mut i: usize = 0;
    while i < items.len() && i < resolved.len()
        invariant
            i <= items.len(),
            i <= resolved.len(),
            r@.len() == i,
            forall|j: int| 0 <= j < i ==> #[trigger] r@[j] == action_for(items@, resolved@, j),
            forall|path: u64| #[trigger]
                entry(carets@, path) == if is_open_before(items@, resolved@, i as int, path) {
                    None
                } else {
                    caret_for(resolved@, path)
                },
        decreases items.len() - i,
    {
        let path: u64 = resolved[i].path;
        let ghost before = carets@;
        assert(entry(before, path) == if is_open_before(items@, resolved@, i as int, path) {
            None
        } else {
            caret_for(resolved@, path)
        });
        let action = match items[i] {
            OpenedItem::Absent => ItemAction::Leave,
            OpenedItem::Failed => ItemAction::DescribeError,
            OpenedItem::Opened => match carets.remove(&path) {
                Some(point) => ItemAction::GoTo(point),
                None => ItemAction::Leave,
            },
        };
        r.push(action);
        proof {
            assert forall|other: u64| #[trigger]
                entry(carets@, other) == if is_open_before(items@, resolved@, i + 1, other) {
                    None
                } else {
                    caret_for(resolved@, other)
                } by {
                assert(entry(before, other) == if is_open_before(
                    items@,
                    resolved@,
                    i as int,
                    other,
                ) {
                    None
                } else {
                    caret_for(resolved@, other)
                });
                if is_open_before(items@, resolved@, i as int, other) {
                    assert(is_open_before(items@, resolved@, i + 1, other));
                } else if is_open_before(items@, resolved@, i + 1, other) {
                    assert(items@[i as int] == OpenedItem::Opened && other == path);
                } else {
                    assert(items@[i as int] != OpenedItem::Opened || other != path);
                }
            }
        }
        i = i + 1;
    }
    r
}

/// The caret is put into one item of a path at most, and only into an open one.
pub proof fn law_caret_goes_to_one_item(
    items: Seq<OpenedItem>,
    resolved: Seq<PathWithPosition>,
    i: int,
    j: int,
)
    requires
        0 <= i < j < items.len(),
        j < resolved.len(),
        action_for(items, resolved, i) is GoTo,
        action_for(items, resolved, j) is GoTo,
    ensures
        resolved[i].path != resolved[j].path,
        items[i] == OpenedItem::Opened,
        items[j] == OpenedItem::Opened,
{
    assert(items[i] == OpenedItem::Opened);
}

/// Where a row is asked for in a path, and the path opens, the caret is put somewhere in it.
pub proof fn law_asked_place_is_gone_to(
    items: Seq<OpenedItem>,
    resolved: Seq<PathWithPosition>,
    i: int,
    k: int,
)
    requires
        0 <= i < items.len(),
        i < resolved.len(),
        0 <= k < resolved.len(),
        items[i] == OpenedItem::Opened,
        resolved[k].path == resolved[i].path,
        resolved[k].row is Some,
    ensures
        exists|j: int|
            0 <= j <= i && resolved[j].path == resolved[i].path && #[trigger] action_for(
                items,
                resolved,
                j,
            ) is GoTo,
    decreases i,
{
    lemma_caret_for_some(resolved, k);
    let path = resolved[i].path;
    if is_open_before(items, resolved, i, path) {
        let j = choose|j: int|
            0 <= j < i && #[trigger] items[j] == OpenedItem::Opened && resolved[j].path == path;
        law_asked_place_is_gone_to(items, resolved, j, k);
    } else {
        assert(action_for(items, resolved, i) is GoTo);
    }
}

proof fn lemma_caret_for_some(resolved: Seq<PathWithPosition>, k: int)
    requires
        0 <= k < resolved.len(),
        resolved[k].row is Some,
    ensures
        caret_for(resolved, resolved[k].path) is Some,
    decreases resolved.len(),
{
    if k < resolved.len() - 1 {
        lemma_caret_for_some(resolved.drop_last(), k);
    }
}

/// The message of an error with the path that it is about. `path` is quoted already.
pub fn describe_error(path: &str, error: &str) -> (r: String)
    ensures
        r@ == "error opening "@ + path@ + ": "@ + error@,
{
    let mut r = "error opening ".to_owned();
    r.append(path);
    r.append(": ");
    r.append(error);
    r
}

/// What is to be compared next.
#[derive(Debug, Clone, Copy, PartialEq, Eq, Structural)]
pub enum DiffStep {
    /// Show all pairs in one view.
    OpenAll,
    /// Show the pair of that index in a view of its own.
    OpenPair { index: usize },
    Finished,
}

/// What is to be compared after `done` views have been dealt with.
pub open spec fn diff_step(pairs: nat, diff_all: bool, done: nat) -> DiffStep {
    if diff_all && pairs > 0 {
        if done == 0 {
            DiffStep::OpenAll
        } else {
            DiffStep::Finished
        }
    } else if done < pairs {
        DiffStep::OpenPair { index: done as usize }
    } else {
        DiffStep::Finished
    }
}

/// Decides what is to be compared after `done` views have been dealt with:
/// all `pairs` in one view if `diff_all` is set, else each in a view of its own.
pub fn next_diff_step(pairs: usize, diff_all: bool, done: usize) -> (r: DiffStep)
    ensures
        r == diff_step(pairs as nat, diff_all, done as nat),
{
    if diff_all && pairs > 0 {
        if done == 0 {
            DiffStep::OpenAll
        } else {
            DiffStep::Finished
        }
    } else if done < pairs {
        DiffStep::OpenPair { index: done }
    } else {
        DiffStep::Finished
    }
}

/// All that is compared from the view `done` on, up to the end.
pub open spec fn diff_steps(pairs: nat, diff_all: bool, done: nat) -> Seq<DiffStep>
    decreases
            (if done <= pairs {
                pairs - done
            } else {
                0
            }),
{
    if done < pairs && diff_step(pairs, diff_all, done) != DiffStep::Finished {
        seq![diff_step(pairs, diff_all, done)] + diff_steps(pairs, diff_all, done + 1)
    } else {
        Seq::empty()
    }
}

/// All pairs are compared in one view, or each once in a view of its own, in order.
pub proof fn law_every_pair_is_compared(pairs: nat, diff_all: bool)
    requires
        pairs <= usize::MAX,
    ensures
        diff_step(pairs, diff_all, pairs) == DiffStep::Finished,
        diff_steps(pairs, diff_all, 0) == if diff_all && pairs > 0 {
            seq![DiffStep::OpenAll]
        } else {
            Seq::new(pairs, |i: int| DiffStep::OpenPair { index: i as usize })
        },
{
    if diff_all && pairs > 0 {
        reveal_with_fuel(diff_steps, 2);
        assert(seq![DiffStep::OpenAll] + Seq::<DiffStep>::empty() =~= seq![DiffStep::OpenAll]);
    } else {
        lemma_diff_steps(pairs, diff_all, 0);
        assert(diff_steps(pairs, diff_all, 0) =~= Seq::new(
            pairs,
            |i: int| DiffStep::OpenPair { index: i as usize },
        ));
    }
}

proof fn lemma_diff_steps(pairs: nat, diff_all: bool, done: nat)
    requires
        done <= pairs <= usize::MAX,
        !diff_all || pairs == 0,
    ensures
        diff_steps(pairs, diff_all, done) == Seq::new(
            (pairs - done) as nat,
            |i: int| DiffStep::OpenPair { index: (done + i) as usize },
        ),
    decreases pairs - done,
{
    if done < pairs {
        lemma_diff_steps(pairs, diff_all, done + 1);
    }
    assert(diff_steps(pairs, diff_all, done) =~= Seq::new(
        (pairs - done) as nat,
        |i: int| DiffStep::OpenPair { index: (done + i) as usize },
    ));
}

/// Takes a view of a comparison in behind the items that are there, if it opened.
pub fn diff_view_opened(items: &mut Vec<OpenedItem>, opened: bool)
    ensures
        final(items)@ == if opened {
            old(items)@.push(OpenedItem::Opened)
        } else {
            old(items)@
        },
{
    if opened {
        items.push(OpenedItem::Opened);
    }
}

} // verus!
