//! What holds of opening paths and of serving the tool: where carets go, what
//! is compared, which workspace comes next, and what is waited for.
use crate::cli::{
    close_step_behind, close_step_first, deals_with, dealt_with_as, env_view, failures,
    first_workspaces_step, goes_on, has_failed, open_items, responses_view, takes_over,
    told_of_urls, told_of_workspace, CliAction, CliItem, CliOpenRequest, CliResponse, CloseStep,
    Environment, OpenWorkspaces, ResponseView, WorkspaceGroup, WorkspaceOutcome, WorkspacesStep,
    PING_INTERVAL_SECS,
};
use crate::open_paths::{
    action_for, caret_for, diff_step, entry, is_last_asked, opens_at, DiffStep, ItemAction,
    LocationStep, LocationView, OpenedItem, PathWithPosition, Point, SerializedWorkspaceLocation,
};
use crate::open_request::{error_message, ErrorView};
use crate::remote::RemoteView;
use vstd::prelude::*;

verus! {

/// The caret of a path goes to the last place that was asked for in it: one row
/// and one column less than was given, since those count from one. Nothing given,
/// or a zero, means the first row or column.
pub proof fn law_caret_of_path(resolved: Seq<PathWithPosition>, path: u64, k: int)
    requires
        is_last_asked(resolved, path, k),
    ensures
        caret_for(resolved, path) matches Some(point) && {
            &&& resolved[k].row->0 >= 1 ==> point.row == resolved[k].row->0 - 1
            &&& resolved[k].row->0 == 0 ==> point.row == 0
            &&& resolved[k].column is Some && resolved[k].column->0 >= 1 ==> point.column
                == resolved[k].column->0 - 1
            &&& resolved[k].column == Some(0u32) ==> point.column == 0
            &&& resolved[k].column is None ==> point.column == 0
        },
    decreases resolved.len(),
{
    if k < resolved.len() - 1 {
        let rest = resolved.drop_last();
        assert(resolved[resolved.len() - 1] == resolved.last());
        assert forall|j: int|
            k < j < rest.len() && (#[trigger] rest[j]).path == path implies rest[j].row is None by {
            assert(resolved[j] == rest[j]);
        }
        law_caret_of_path(rest, path, k);
    }
}

/// A path in which no row was asked for has no caret.
pub proof fn law_no_caret_without_row(resolved: Seq<PathWithPosition>, path: u64)
    requires
        forall|j: int|
            0 <= j < resolved.len() && (#[trigger] resolved[j]).path == path ==> resolved[j].row
                is None,
    ensures
        caret_for(resolved, path) is None,
    decreases resolved.len(),
{
    if resolved.len() > 0 {
        let rest = resolved.drop_last();
        assert(resolved[resolved.len() - 1] == resolved.last());
        assert forall|j: int|
            0 <= j < rest.len() && (#[trigger] rest[j]).path == path implies rest[j].row
            is None by {
            assert(resolved[j] == rest[j]);
        }
        law_no_caret_without_row(rest, path);
    }
}

/// A path has an entry exactly where the map holds it, and then what it holds.
pub proof fn law_entry(map: Map<u64, Point>, path: u64, point: Point)
    ensures
        entry(map, path) == Some(point) <==> map.contains_pair(path, point),
        entry(map, path) is None <==> !map.contains_key(path),
{
}

/// The caret of a path is put into the first item that is open on it, at the
/// last place that was asked for.
pub proof fn law_first_open_item_gets_the_caret(
    items: Seq<OpenedItem>,
    resolved: Seq<PathWithPosition>,
    i: int,
    k: int,
)
    requires
        0 <= i < items.len(),
        i < resolved.len(),
        items[i] == OpenedItem::Opened,
        forall|j: int|
            0 <= j < i && #[trigger] items[j] == OpenedItem::Opened ==> resolved[j].path
                != resolved[i].path,
        is_last_asked(resolved, resolved[i].path, k),
    ensures
        action_for(items, resolved, i) matches ItemAction::GoTo(point) && {
            &&& resolved[k].row->0 >= 1 ==> point.row == resolved[k].row->0 - 1
            &&& resolved[k].row->0 == 0 ==> point.row == 0
            &&& resolved[k].column is Some && resolved[k].column->0 >= 1 ==> point.column
                == resolved[k].column->0 - 1
            &&& resolved[k].column == Some(0u32) ==> point.column == 0
            &&& resolved[k].column is None ==> point.column == 0
        },
{
    law_caret_of_path(resolved, resolved[i].path, k);
}

/// What is not open, or is open behind another item of its path, or is on a
/// path without a row gets no caret; what failed has its error described, and
/// all else is left.
pub proof fn law_other_items_get_no_caret(
    items: Seq<OpenedItem>,
    resolved: Seq<PathWithPosition>,
    i: int,
    j: int,
)
    requires
        0 <= i < items.len(),
        i < resolved.len(),
    ensures
        items[i] == OpenedItem::Absent ==> action_for(items, resolved, i) == ItemAction::Leave,
        items[i] == OpenedItem::Failed ==> action_for(items, resolved, i)
            == ItemAction::DescribeError,
        items[i] == OpenedItem::Opened && 0 <= j < i && items[j] == OpenedItem::Opened
            && resolved[j].path == resolved[i].path ==> action_for(items, resolved, i)
            == ItemAction::Leave,
        items[i] == OpenedItem::Opened && (forall|m: int|
            0 <= m < resolved.len() && (#[trigger] resolved[m]).path == resolved[i].path
                ==> resolved[m].row is None) ==> action_for(items, resolved, i)
            == ItemAction::Leave,
{
    if forall|m: int|
        0 <= m < resolved.len() && (#[trigger] resolved[m]).path == resolved[i].path
            ==> resolved[m].row is None {
        law_no_caret_without_row(resolved, resolved[i].path);
    }
}

/// All pairs go into one view, which comes first and alone, or each into a view
/// of its own, by its index; behind the last nothing is compared.
pub proof fn law_next_comparison(pairs: nat, diff_all: bool, done: nat)
    requires
        pairs <= usize::MAX,
    ensures
        diff_step(pairs, diff_all, done) == DiffStep::OpenAll <==> diff_all && pairs > 0 && done
            == 0,
        diff_step(pairs, diff_all, done) matches DiffStep::OpenPair { index } ==> index == done
            && done < pairs && !diff_all,
        !diff_all && done < pairs ==> diff_step(pairs, diff_all, done) is OpenPair,
        done >= pairs && !(diff_all && done == 0 && pairs > 0) ==> diff_step(pairs, diff_all, done)
            == DiffStep::Finished,
        diff_all && done > 0 ==> diff_step(pairs, diff_all, done) == DiffStep::Finished,
{
}

/// Paths are opened locally exactly at the local location; an SSH host has its
/// own options filled in first, and any other machine is opened as it is.
pub proof fn law_opening_at_location(location: SerializedWorkspaceLocation, step: LocationStep)
    requires
        opens_at(location@, step),
    ensures
        step is OpenLocal <==> location is Local,
        step matches LocationStep::FillSshOptions(options) ==> location@ == LocationView::Remote(
            RemoteView::Ssh(options@),
        ),
        step matches LocationStep::OpenRemote(connection) ==> location@ == LocationView::Remote(
            connection@,
        ) && !(connection is Ssh),
{
}

/// A location is seen as local where it is, and else as its connection.
pub proof fn law_location(location: SerializedWorkspaceLocation)
    ensures
        location is Local <==> location@ is Local,
        location matches SerializedWorkspaceLocation::Remote(connection) ==> location@
            == LocationView::Remote(connection@),
{
}

/// Waited for is every open item, each once and in order: none of no items, one
/// of one that is open, none of one that is not, and of two lists those of the
/// first and then those of the second.
pub proof fn law_open_items(one: CliItem, first: Seq<CliItem>, second: Seq<CliItem>)
    ensures
        open_items(Seq::empty()) == Seq::<u64>::empty(),
        one matches CliItem::Opened { item } ==> open_items(seq![one]) == seq![item],
        !(one is Opened) ==> open_items(seq![one]) == Seq::<u64>::empty(),
        open_items(first + second) == open_items(first) + open_items(second),
    decreases second.len(),
{
    assert(seq![one].drop_last() =~= Seq::<CliItem>::empty());
    assert(open_items(Seq::<CliItem>::empty()) =~= Seq::<u64>::empty());
    if one is Opened {
        assert(open_items(seq![one]) =~= seq![one->item]);
    }
    if second.len() == 0 {
        assert(first + second =~= first);
        assert(open_items(first) + open_items(second) =~= open_items(first));
    } else {
        law_open_items(one, first, second.drop_last());
        assert((first + second).drop_last() =~= first + second.drop_last());
        assert((first + second).last() == second.last());
        assert(open_items(first + second) =~= open_items(first) + open_items(second));
    }
}

/// Every item that is open is waited for, and as many are waited for as are open.
pub proof fn law_every_open_item_is_waited_for(items: Seq<CliItem>)
    ensures
        forall|i: int|
            0 <= i < items.len() && (#[trigger] items[i]) is Opened ==> open_items(items).contains(
                items[i]->item,
            ),
        open_items(items).len() == items.filter(|item: CliItem| item is Opened).len(),
    decreases items.len(),
{
    reveal(Seq::filter);
    if items.len() > 0 {
        let rest = items.drop_last();
        law_every_open_item_is_waited_for(rest);
        assert forall|i: int| 0 <= i < items.len() && (#[trigger] items[i]) is Opened implies
            open_items(items).contains(items[i]->item) by {
            if i < rest.len() {
                assert(rest[i] == items[i]);
                let n = open_items(rest);
                let k = choose|k: int| 0 <= k < n.len() && n[k] == items[i]->item;
                assert(open_items(items)[k] == items[i]->item);
            } else {
                assert(items[i] == items.last());
                let all = open_items(items);
                assert(all[all.len() - 1] == items[i]->item);
            }
        }
    }
}

/// The tool is told of every failure, by its message and in order, and of
/// nothing else.
pub proof fn law_failures(one: CliItem, first: Seq<CliItem>, second: Seq<CliItem>)
    ensures
        failures(Seq::empty()) == Seq::<ResponseView>::empty(),
        one matches CliItem::Failed { message } ==> failures(seq![one]) == seq![
            ResponseView::Stderr { message: message@ },
        ],
        !(one is Failed) ==> failures(seq![one]) == Seq::<ResponseView>::empty(),
        failures(first + second) == failures(first) + failures(second),
    decreases second.len(),
{
    assert(seq![one].drop_last() =~= Seq::<CliItem>::empty());
    assert(failures(Seq::<CliItem>::empty()) =~= Seq::<ResponseView>::empty());
    if one is Failed {
        assert(failures(seq![one]) =~= seq![ResponseView::Stderr { message: one->message@ }]);
    }
    if second.len() == 0 {
        assert(first + second =~= first);
        assert(failures(first) + failures(second) =~= failures(first));
    } else {
        law_failures(one, first, second.drop_last());
        assert((first + second).drop_last() =~= first + second.drop_last());
        assert((first + second).last() == second.last());
        assert(failures(first + second) =~= failures(first) + failures(second));
    }
}

/// What the tool is told is seen as what it is, its messages by their characters.
pub proof fn law_responses(responses: Seq<CliResponse>, i: int)
    requires
        0 <= i < responses.len(),
    ensures
        responses_view(responses).len() == responses.len(),
        responses[i] is Ping <==> responses_view(responses)[i] is Ping,
        responses[i] matches CliResponse::Stderr { message } ==> responses_view(responses)[i] == (
        ResponseView::Stderr { message: message@ }),
        responses[i] matches CliResponse::Exit { status } ==> responses_view(responses)[i] == (
        ResponseView::Exit { status }),
{
}

/// An environment is seen as its variables, in order.
pub proof fn law_environment(env: Option<Environment>)
    ensures
        env is None <==> env_view(env) is None,
        env matches Some(variables) ==> env_view(env) == Some(variables@),
        PING_INTERVAL_SECS == 1,
{
}

/// URLs are read, with all that goes with them, wherever the tool gives one;
/// else workspaces are opened as it asks in every part.
pub proof fn law_urls_go_before_paths(request: CliOpenRequest)
    ensures
        request.urls@.len() > 0 ==> (dealt_with_as(request) matches CliAction::ReadUrls(raw)
            && raw.urls == request.urls && raw.diff_paths == request.diff_paths && raw.diff_all
            == request.diff_all && raw.wsl == request.wsl),
        request.urls@.len() == 0 ==> (dealt_with_as(request) matches CliAction::OpenWorkspaces(
            asked,
        ) && asked.paths == request.paths && asked.diff_paths == request.diff_paths
            && asked.diff_all == request.diff_all && asked.open_new_workspace
            == request.open_new_workspace && asked.reuse == request.reuse && asked.wait
            == request.wait && asked.env == request.env),
{
}

/// The last that the tool is told of its URLs is to exit, with zero exactly
/// where there is no error; an error is told before, by its message.
pub proof fn law_what_is_told_of_urls(error: Option<ErrorView>)
    ensures
        told_of_urls(error).last() matches ResponseView::Exit { status } && (status == 0 <==> error
            is None) && (error is Some ==> status == 1),
        error is None ==> told_of_urls(error).len() == 1,
        error matches Some(error) ==> told_of_urls(Some(error)).len() == 2 && told_of_urls(
            Some(error),
        )[0] == (ResponseView::Stderr { message: error_message(error) }),
{
}

/// What the tool gives is opened wherever it gives a path or files to compare;
/// else the last session is, unless a new workspace is asked for.
pub proof fn law_first_step(paths: Vec<String>, diff_paths: nat, open_new_workspace: Option<bool>)
    ensures
        first_workspaces_step(paths, diff_paths, open_new_workspace) matches WorkspacesStep::Group(
            given,
        ) ==> given == paths,
        first_workspaces_step(paths, diff_paths, open_new_workspace) is Group <==> paths@.len() > 0
            || diff_paths > 0,
        first_workspaces_step(paths, diff_paths, open_new_workspace) is AskFirstOpen
            <==> paths@.len() == 0 && diff_paths == 0 && open_new_workspace == Some(true),
        first_workspaces_step(paths, diff_paths, open_new_workspace) is Restore <==> paths@.len()
            == 0 && diff_paths == 0 && open_new_workspace != Some(true),
{
}

/// A workspace that reuses a window takes over the first that was found, as a
/// new workspace, and keeps the tool waiting and the environment as asked.
pub proof fn law_reusing_a_window(
    workspaces: OpenWorkspaces,
    group: WorkspaceGroup,
    windows: Seq<u64>,
    step: WorkspacesStep,
)
    requires
        takes_over(workspaces, group, windows, step),
    ensures
        step matches WorkspacesStep::Open { group: opened, options } && opened == group
            && options.open_new_workspace == Some(true) && (windows.len() > 0
            ==> options.replace_window == Some(windows.first())) && (windows.len() == 0
            ==> options.replace_window is None) && options.wait == workspaces.wait && (options.env
            is Some <==> workspaces.env is Some) && (options.env is Some ==> options.env->0@
            == workspaces.env->0@),
{
}

/// The tool is told of a workspace exactly where it could not be opened, and
/// then by the whole message.
pub proof fn law_what_is_told_of_workspace(items_failed: bool, message: String)
    ensures
        told_of_workspace(WorkspaceOutcome::Opened { items_failed }) is None,
        told_of_workspace(WorkspaceOutcome::Failed { message }) == Some(
            ResponseView::Stderr { message: "error opening: "@ + message@ },
        ),
{
}

/// A workspace has failed where it could not be opened, and where something in
/// it could not be.
pub proof fn law_what_has_failed(items_failed: bool, message: String, workspaces: OpenWorkspaces)
    ensures
        has_failed(WorkspaceOutcome::Failed { message }),
        has_failed(WorkspaceOutcome::Opened { items_failed }) <==> items_failed,
        workspaces.with_outcome(WorkspaceOutcome::Failed { message }) == (OpenWorkspaces {
            errored: true,
            ..workspaces
        }),
        workspaces.with_outcome(WorkspaceOutcome::Opened { items_failed: true }) == (
        OpenWorkspaces { errored: true, ..workspaces }),
        workspaces.with_outcome(WorkspaceOutcome::Opened { items_failed: false }) == workspaces,
{
}

/// A workspace is opened as the tool asked, in a window of its own choice, or,
/// where a window is to be reused, once the windows are known.
pub proof fn law_how_a_workspace_is_opened(
    workspaces: OpenWorkspaces,
    group: WorkspaceGroup,
    step: WorkspacesStep,
)
    requires
        deals_with(workspaces, group, step),
    ensures
        workspaces.reuse ==> step == WorkspacesStep::FindWindow(group),
        !workspaces.reuse ==> (step matches WorkspacesStep::Open { group: opened, options }
            && opened == group && options.open_new_workspace == workspaces.open_new_workspace
            && options.replace_window is None && options.wait == workspaces.wait && (options.env
            is Some <==> workspaces.env is Some) && (options.env is Some ==> options.env->0@
            == workspaces.env->0@)),
{
}

/// The next workspace is the first that is left; it is taken off the list and
/// nothing else changes. Where none is left, that is the end, and what failed so
/// far decides whether it failed.
pub proof fn law_next_workspace(
    before: OpenWorkspaces,
    after: OpenWorkspaces,
    step: WorkspacesStep,
)
    requires
        goes_on(before, after, step),
    ensures
        before.groups@.len() == 0 ==> step == (WorkspacesStep::Finished { failed: before.errored })
            && after == before,
        before.groups@.len() > 0 ==> before.groups@ == seq![before.groups@[0]] + after.groups@,
        before.groups@.len() > 0 && before.reuse ==> step == WorkspacesStep::FindWindow(
            before.groups@[0],
        ),
        before.groups@.len() > 0 && !before.reuse ==> (step matches WorkspacesStep::Open {
            group,
            options,
        } && group == before.groups@[0] && options.open_new_workspace == before.open_new_workspace
            && options.replace_window is None && options.wait == before.wait),
        after.open_new_workspace == before.open_new_workspace,
        after.reuse == before.reuse,
        after.wait == before.wait,
        after.env == before.env,
        after.errored == before.errored,
{
    if before.groups@.len() > 0 {
        assert(before.groups@ =~= seq![before.groups@[0]] + before.groups@.drop_first());
    }
}

/// A tool that does not wait has nothing to wait for; one that gave nothing
/// waits for the window, one that gave files to compare alone does not; and
/// else its paths are looked at one after the other, up to the first directory.
pub proof fn law_what_is_looked_at(
    wait: bool,
    paths: nat,
    diff_paths: nat,
    index: nat,
    is_dir: bool,
)
    requires
        index < paths <= usize::MAX,
    ensures
        close_step_first(false, paths, diff_paths) == (CloseStep::Decided {
            wait_for_close: false,
        }),
        close_step_first(true, paths, diff_paths) == (CloseStep::CheckPath { index: 0 }),
        close_step_first(true, 0, diff_paths) == (CloseStep::Decided {
            wait_for_close: diff_paths == 0,
        }),
        close_step_first(false, 0, diff_paths) == (CloseStep::Decided { wait_for_close: false }),
        close_step_behind(paths, index, true) == (CloseStep::Decided { wait_for_close: true }),
        index + 1 == paths ==> close_step_behind(paths, index, false) == (CloseStep::Decided {
            wait_for_close: false,
        }),
        index + 1 < paths ==> (close_step_behind(paths, index, false) matches CloseStep::CheckPath {
            index: next,
        } && next == index + 1),
{
}

} // verus!
