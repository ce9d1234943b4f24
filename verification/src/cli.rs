//! Serving the command line tool: what a request asks for, what is answered,
//! and how long the tool is kept waiting.
use crate::open_laws::law_every_open_item_is_waited_for;
use crate::open_paths::SerializedWorkspaceLocation;
use crate::open_request::{error_message, ErrorView, OpenRequestError, RawOpenRequest};
use vstd::prelude::*;
use vstd::string::*;

verus! {

/// The seconds between two tests of whether the tool is still there.
pub const PING_INTERVAL_SECS: u64 = 1;

/// The variables of an environment with their values.
pub type Environment = Vec<(String, String)>;

/// What the tool asks to be opened.
#[derive(Debug)]
pub struct CliOpenRequest {
    pub urls: Vec<String>,
    pub paths: Vec<String>,
    pub diff_paths: Vec<[String; 2]>,
    pub diff_all: bool,
    pub wait: bool,
    pub wsl: Option<String>,
    pub open_new_workspace: Option<bool>,
    pub reuse: bool,
    pub env: Option<Environment>,
}

/// What the tool is told.
#[derive(Debug)]
pub enum CliResponse {
    Ping,
    Stderr { message: String },
    Exit { status: i32 },
}

/// What the tool is told, by its characters.
pub enum ResponseView {
    Ping,
    Stderr { message: Seq<char> },
    Exit { status: i32 },
}

impl View for CliResponse {
    type V = ResponseView;

    open spec fn view(&self) -> ResponseView {
        match *self {
            CliResponse::Ping => ResponseView::Ping,
            CliResponse::Stderr { message } => ResponseView::Stderr { message: message@ },
            CliResponse::Exit { status } => ResponseView::Exit { status },
        }
    }
}

/// The views of a list of responses.
pub open spec fn responses_view(responses: Seq<CliResponse>) -> Seq<ResponseView> {
    responses.map_values(|response: CliResponse| response@)
}

/// What the tool asks for when it gives no URLs.
#[derive(Debug)]
pub struct WorkspacesRequest {
    pub paths: Vec<String>,
    pub diff_paths: Vec<[String; 2]>,
    pub diff_all: bool,
    pub open_new_workspace: Option<bool>,
    pub reuse: bool,
    pub wait: bool,
    pub env: Option<Environment>,
}

/// How a request of the tool is dealt with.
pub enum CliAction {
    /// Read the URLs and open what they ask for.
    ReadUrls(RawOpenRequest),
    /// Open workspaces for the paths.
    OpenWorkspaces(WorkspacesRequest),
}

/// How a request of the tool is dealt with.
pub open spec fn dealt_with_as(request: CliOpenRequest) -> CliAction {
    if request.urls@.len() > 0 {
        CliAction::ReadUrls(
            RawOpenRequest {
                urls: request.urls,
                diff_paths: request.diff_paths,
                diff_all: request.diff_all,
                wsl: request.wsl,
            },
        )
    } else {
        CliAction::OpenWorkspaces(
            WorkspacesRequest {
                paths: request.paths,
                diff_paths: request.diff_paths,
                diff_all: request.diff_all,
                open_new_workspace: request.open_new_workspace,
                reuse: request.reuse,
                wait: request.wait,
                env: request.env,
            },
        )
    }
}

/// Decides how a request of the tool is dealt with: URLs go before paths.
pub fn handle_cli_connection(request: CliOpenRequest) -> (r: CliAction)
    ensures
        r == dealt_with_as(request),
{
    if request.urls.len() > 0 {
        CliAction::ReadUrls(
            RawOpenRequest {
                urls: request.urls,
                diff_paths: request.diff_paths,
                diff_all: request.diff_all,
                wsl: request.wsl,
            },
        )
    } else {
        CliAction::OpenWorkspaces(
            WorkspacesRequest {
                paths: request.paths,
                diff_paths: request.diff_paths,
                diff_all: request.diff_all,
                open_new_workspace: request.open_new_workspace,
                reuse: request.reuse,
                wait: request.wait,
                env: request.env,
            },
        )
    }
}

/// The response that ends the tool.
pub fn exit_response(failed: bool) -> (r: CliResponse)
    ensures
        r == (CliResponse::Exit {
            status: if failed {
                1
            } else {
                0
            },
        }),
{
    CliResponse::Exit {
        status: if failed {
            1
        } else {
            0
        },
    }
}

/// What the tool is told once its URLs have been read, by its characters.
pub open spec fn told_of_urls(error: Option<ErrorView>) -> Seq<ResponseView> {
    match error {
        None => seq![ResponseView::Exit { status: 0 }],
        Some(error) => seq![
            ResponseView::Stderr { message: error_message(error) },
            ResponseView::Exit { status: 1 },
        ],
    }
}

/// What the tool is told once its URLs have been read: the error, if there is
/// one, and then to exit.
pub fn url_responses(error: Option<&OpenRequestError>) -> (r: Vec<CliResponse>)
    ensures
        responses_view(r@) == told_of_urls(
            match error {
                Some(error) => Some(error@),
                None => None,
            },
        ),
{
    let mut r: Vec<CliResponse> = Vec::new();
    match error {
        None => {
            r.push(exit_response(false));
            assert(responses_view(r@) =~= seq![ResponseView::Exit { status: 0 }]);
        },
        Some(error) => {
            r.push(CliResponse::Stderr { message: error.message() });
            r.push(exit_response(true));
            assert(responses_view(r@) =~= seq![
                ResponseView::Stderr { message: error_message(error@) },
                ResponseView::Exit { status: 1 },
            ]);
        },
    }
    r
}

/// A workspace to open: where it is and its paths.
#[derive(Debug)]
pub struct WorkspaceGroup {
    pub location: SerializedWorkspaceLocation,
    pub paths: Vec<String>,
}

/// How a workspace is opened.
#[derive(Debug)]
pub struct OpenOptions {
    pub open_new_workspace: Option<bool>,
    /// The window that the workspace takes over, by its number.
    pub replace_window: Option<u64>,
    pub wait: bool,
    pub env: Option<Environment>,
}

/// The variables of an environment, if there is one.
pub open spec fn env_view(env: Option<Environment>) -> Option<Seq<(String, String)>> {
    match env {
        Some(env) => Some(env@),
        None => None,
    }
}

fn clone_env(env: &Option<Environment>) -> (r: Option<Environment>)
    ensures
        env_view(r) == env_view(*env),
{
    match env {
        None => None,
        Some(env) => {
            let mut r: Environment = Vec::new();
            let mut i: usize = 0;
            while i < env.len()
                invariant
                    i <= env.len(),
                    r@ == env@.take(i as int),
                decreases env.len() - i,
            {
                r.push((env[i].0.clone(), env[i].1.clone()));
                assert(env@.take(i + 1) =~= env@.take(i as int).push(env@[i as int]));
                i = i + 1;
            }
            assert(env@.take(i as int) =~= env@);
            Some(r)
        },
    }
}

/// What came of opening a workspace.
#[derive(Debug)]
pub enum WorkspaceOutcome {
    /// It opened; some of its items may have failed.
    Opened { items_failed: bool },
    Failed { message: String },
}

/// Whether a workspace, or something in it, could not be opened.
pub open spec fn has_failed(outcome: WorkspaceOutcome) -> bool {
    match outcome {
        WorkspaceOutcome::Opened { items_failed } => items_failed,
        WorkspaceOutcome::Failed { .. } => true,
    }
}

/// What is to be done next to open the workspaces.
#[derive(Debug)]
pub enum WorkspacesStep {
    /// Put the paths in order, and go on with them as one workspace.
    Group(Vec<String>),
    /// Find the workspaces of the last session, and go on with those.
    Restore,
    /// There is no workspace to open. Read what the first launch stores.
    AskFirstOpen,
    /// Show the welcome screen; that is all.
    ShowOnboarding,
    /// Show a window with an empty editor; that is all.
    OpenNewFile { env: Option<Environment> },
    /// Find the windows at the location, and go on with those.
    FindWindow(WorkspaceGroup),
    Open { group: WorkspaceGroup, options: OpenOptions },
    /// Every workspace has been dealt with.
    Finished { failed: bool },
}

/// Workspaces that are opened one after the other.
#[derive(Debug)]
pub struct OpenWorkspaces {
    /// Those that are still to be opened.
    pub groups: Vec<WorkspaceGroup>,
    pub open_new_workspace: Option<bool>,
    pub reuse: bool,
    pub wait: bool,
    pub env: Option<Environment>,
    /// Whether one has failed so far.
    pub errored: bool,
}

/// Whether `step` deals with `group`. With `reuse` set a workspace takes over a
/// window that is there; else it is opened as the tool asked.
pub open spec fn deals_with(
    workspaces: OpenWorkspaces,
    group: WorkspaceGroup,
    step: WorkspacesStep,
) -> bool {
    if workspaces.reuse {
        step == WorkspacesStep::FindWindow(group)
    } else {
        &&& step matches WorkspacesStep::Open { group: opened, options }
        &&& opened == group
        &&& options.open_new_workspace == workspaces.open_new_workspace
        &&& options.replace_window is None
        &&& options.wait == workspaces.wait
        &&& env_view(options.env) == env_view(workspaces.env)
    }
}

/// Whether `step` deals with the next of the workspaces `before`, and leaves
/// `after` to be dealt with.
pub open spec fn goes_on(
    before: OpenWorkspaces,
    after: OpenWorkspaces,
    step: WorkspacesStep,
) -> bool {
    if before.groups@.len() == 0 {
        after == before && step == (WorkspacesStep::Finished { failed: before.errored })
    } else {
        &&& after.groups@ == before.groups@.drop_first()
        &&& after == (OpenWorkspaces { groups: after.groups, ..before })
        &&& deals_with(before, before.groups@[0], step)
    }
}

/// What is to be done first to open the workspaces that the tool asks for.
pub open spec fn first_workspaces_step(
    paths: Vec<String>,
    diff_paths: nat,
    open_new_workspace: Option<bool>,
) -> WorkspacesStep {
    if paths@.len() > 0 || diff_paths > 0 {
        WorkspacesStep::Group(paths)
    } else if open_new_workspace == Some(true) {
        WorkspacesStep::AskFirstOpen
    } else {
        WorkspacesStep::Restore
    }
}

/// Whether `step` opens `group` in the first of `windows`, or in a new one if
/// there is none.
pub open spec fn takes_over(
    workspaces: OpenWorkspaces,
    group: WorkspaceGroup,
    windows: Seq<u64>,
    step: WorkspacesStep,
) -> bool {
    &&& step matches WorkspacesStep::Open { group: opened, options }
    &&& opened == group
    &&& options.open_new_workspace == Some(true)
    &&& options.replace_window == if windows.len() == 0 {
        None
    } else {
        Some(windows[0])
    }
    &&& options.wait == workspaces.wait
    &&& env_view(options.env) == env_view(workspaces.env)
}

/// What the tool is told of a workspace, by its characters.
pub open spec fn told_of_workspace(outcome: WorkspaceOutcome) -> Option<ResponseView> {
    match outcome {
        WorkspaceOutcome::Opened { .. } => None,
        WorkspaceOutcome::Failed { message } => Some(
            ResponseView::Stderr { message: "error opening: "@ + message@ },
        ),
    }
}

/// Begins to open the workspaces that the tool asks for: one for the paths it
/// gives, or, where it gives none, those of the last session, unless it asks
/// for a new one.
pub fn open_workspaces(
    paths: Vec<String>,
    diff_paths: &Vec<[String; 2]>,
    open_new_workspace: Option<bool>,
    reuse: bool,
    wait: bool,
    env: Option<Environment>,
) -> (r: (OpenWorkspaces, WorkspacesStep))
    ensures
        r.0.groups@.len() == 0,
        r.0 == (OpenWorkspaces {
            groups: r.0.groups,
            open_new_workspace,
            reuse,
            wait,
            env,
            errored: false,
        }),
        r.1 == first_workspaces_step(paths, diff_paths@.len(), open_new_workspace),
{
    let step = if paths.len() == 0 && diff_paths.len() == 0 {
        if let Some(true) = open_new_workspace {
            WorkspacesStep::AskFirstOpen
        } else {
            WorkspacesStep::Restore
        }
    } else {
        WorkspacesStep::Group(paths)
    };
    let workspaces = OpenWorkspaces {
        groups: Vec::new(),
        open_new_workspace,
        reuse,
        wait,
        env,
        errored: false,
    };
    (workspaces, step)
}

impl OpenWorkspaces {
    /// Goes on with the workspaces to open, once they are known.
    pub fn located(&mut self, groups: Vec<WorkspaceGroup>) -> (r: WorkspacesStep)
        ensures
            groups@.len() == 0 ==> *final(self) == (OpenWorkspaces { groups, ..*old(self) }) && r
                == WorkspacesStep::AskFirstOpen,
            groups@.len() > 0 ==> goes_on(
                OpenWorkspaces { groups, ..*old(self) },
                *final(self),
                r,
            ),
    {
        self.groups = groups;
        if self.groups.len() == 0 {
            WorkspacesStep::AskFirstOpen
        } else {
            self.next_step()
        }
    }

    /// Goes on with the paths that the tool gave, once they are in order: they
    /// are one local workspace.
    pub fn grouped(&mut self, paths: Vec<String>) -> (r: WorkspacesStep)
        ensures
            deals_with(
                *old(self),
                WorkspaceGroup { location: SerializedWorkspaceLocation::Local, paths },
                r,
            ),
            final(self).groups@.len() == 0,
            *final(self) == (OpenWorkspaces { groups: final(self).groups, ..*old(self) }),
    {
        let mut groups: Vec<WorkspaceGroup> = Vec::new();
        groups.push(WorkspaceGroup { location: SerializedWorkspaceLocation::Local, paths });
        self.located(groups)
    }

    /// Goes on where there is no workspace to open, from what is stored under
    /// the key that the first launch sets, or from the failure to read it.
    pub fn first_open(&self, stored: &Result<Option<String>, String>) -> (r: WorkspacesStep)
        ensures
            match stored {
                Ok(None) => r is ShowOnboarding,
                _ => r matches WorkspacesStep::OpenNewFile { env } && env_view(env) == env_view(
                    self.env,
                ),
            },
    {
        match stored {
            Ok(None) => WorkspacesStep::ShowOnboarding,
            _ => WorkspacesStep::OpenNewFile { env: clone_env(&self.env) },
        }
    }

    /// Goes on to the next workspace.
    fn next_step(&mut self) -> (r: WorkspacesStep)
        ensures
            goes_on(*old(self), *final(self), r),
    {
        if self.groups.len() == 0 {
            return WorkspacesStep::Finished { failed: self.errored };
        }
        let ghost before = self.groups@;
        let group = self.groups.remove(0);
        assert(self.groups@ =~= before.drop_first());
        if self.reuse {
            WorkspacesStep::FindWindow(group)
        } else {
            let options = OpenOptions {
                open_new_workspace: self.open_new_workspace,
                replace_window: None,
                wait: self.wait,
                env: clone_env(&self.env),
            };
            WorkspacesStep::Open { group, options }
        }
    }

    /// Opens a workspace in the first of the windows that were found for it,
    /// or, if there is none, in a new one.
    pub fn window_found(&self, group: WorkspaceGroup, windows: &Vec<u64>) -> (r: WorkspacesStep)
        ensures
            takes_over(*self, group, windows@, r),
    {
        let options = OpenOptions {
            open_new_workspace: Some(true),
            replace_window: if windows.len() == 0 {
                None
            } else {
                Some(windows[0])
            },
            wait: self.wait,
            env: clone_env(&self.env),
        };
        WorkspacesStep::Open { group, options }
    }

    /// Takes in what came of opening a workspace, gives what the tool is told
    /// of it, and goes on to the next.
    pub fn opened(&mut self, outcome: WorkspaceOutcome) -> (r: (
        Option<CliResponse>,
        WorkspacesStep,
    ))
        ensures
            goes_on(old(self).with_outcome(outcome), *final(self), r.1),
            match r.0 {
                Some(response) => Some(response@),
                None => None,
            } == told_of_workspace(outcome),
    {
        let response = match outcome {
            WorkspaceOutcome::Opened { items_failed } => {
                if items_failed {
                    self.errored = true;
                }
                None
            },
            WorkspaceOutcome::Failed { message } => {
                self.errored = true;
                Some(
                    CliResponse::Stderr {
                        message: "error opening: ".to_owned().concat(message.as_str()),
                    },
                )
            },
        };
        (response, self.next_step())
    }

    /// The workspaces after an outcome has been taken in.
    pub open spec fn with_outcome(self, outcome: WorkspaceOutcome) -> OpenWorkspaces {
        OpenWorkspaces { errored: self.errored || has_failed(outcome), ..self }
    }
}

/// The workspace that a step deals with.
pub open spec fn group_of(step: WorkspacesStep) -> Option<WorkspaceGroup> {
    match step {
        WorkspacesStep::FindWindow(group) => Some(group),
        WorkspacesStep::Open { group, .. } => Some(group),
        _ => None,
    }
}

/// Whether `workspaces` deals with `opened` one after the other, each with the
/// outcome of the same index, and comes to `failed`.
pub open spec fn runs_through(
    workspaces: OpenWorkspaces,
    opened: Seq<WorkspaceGroup>,
    outcomes: Seq<WorkspaceOutcome>,
    failed: bool,
) -> bool
    decreases outcomes.len(),
{
    if outcomes.len() == 0 {
        &&& opened.len() == 0
        &&& goes_on(workspaces, workspaces, WorkspacesStep::Finished { failed })
    } else {
        &&& opened.len() > 0
        &&& exists|after: OpenWorkspaces, step: WorkspacesStep|
            {
                &&& #[trigger] goes_on(workspaces, after, step)
                &&& group_of(step) == Some(opened[0])
                &&& runs_through(
                    after.with_outcome(outcomes[0]),
                    opened.drop_first(),
                    outcomes.drop_first(),
                    failed,
                )
            }
    }
}

/// Every workspace is opened once, in order, whatever becomes of those before
/// it; and opening them fails exactly where one of them, or something in one, fails.
pub proof fn law_every_workspace_is_opened(
    workspaces: OpenWorkspaces,
    opened: Seq<WorkspaceGroup>,
    outcomes: Seq<WorkspaceOutcome>,
    failed: bool,
)
    requires
        runs_through(workspaces, opened, outcomes, failed),
    ensures
        opened == workspaces.groups@,
        outcomes.len() == workspaces.groups@.len(),
        failed <==> workspaces.errored || exists|i: int|
            0 <= i < outcomes.len() && has_failed(#[trigger] outcomes[i]),
    decreases outcomes.len(),
{
    if outcomes.len() > 0 {
        let (after, step) = choose|after: OpenWorkspaces, step: WorkspacesStep|
            {
                &&& #[trigger] goes_on(workspaces, after, step)
                &&& group_of(step) == Some(opened[0])
                &&& runs_through(
                    after.with_outcome(outcomes[0]),
                    opened.drop_first(),
                    outcomes.drop_first(),
                    failed,
                )
            };
        let rest = outcomes.drop_first();
        law_every_workspace_is_opened(
            after.with_outcome(outcomes[0]),
            opened.drop_first(),
            rest,
            failed,
        );
        assert(workspaces.groups@.len() > 0);
        assert(opened =~= seq![opened[0]] + opened.drop_first());
        assert(workspaces.groups@ =~= seq![workspaces.groups@[0]]
            + workspaces.groups@.drop_first());
        if exists|i: int| 0 <= i < rest.len() && has_failed(#[trigger] rest[i]) {
            let i = choose|i: int| 0 <= i < rest.len() && has_failed(#[trigger] rest[i]);
            assert(has_failed(outcomes[i + 1]));
        }
        if exists|i: int| 0 <= i < outcomes.len() && has_failed(#[trigger] outcomes[i]) {
            let i = choose|i: int| 0 <= i < outcomes.len() && has_failed(#[trigger] outcomes[i]);
            if i > 0 {
                assert(has_failed(rest[i - 1]));
            }
        }
    } else {
        assert(opened =~= workspaces.groups@);
    }
}

/// What is to be found out before it is known whether the tool waits for the
/// window to close.
#[derive(Debug, Clone, Copy, PartialEq, Eq, Structural)]
pub enum CloseStep {
    /// Look whether the path of that index is a directory.
    CheckPath { index: usize },
    Decided { wait_for_close: bool },
}

/// What is to be found out first.
pub open spec fn close_step_first(wait: bool, paths: nat, diff_paths: nat) -> CloseStep {
    if !wait {
        CloseStep::Decided { wait_for_close: false }
    } else if paths > 0 {
        CloseStep::CheckPath { index: 0 }
    } else {
        CloseStep::Decided { wait_for_close: diff_paths == 0 }
    }
}

/// What is to be found out once path `index` is known to be a directory, or not to be.
pub open spec fn close_step_behind(paths: nat, index: nat, is_dir: bool) -> CloseStep {
    if is_dir {
        CloseStep::Decided { wait_for_close: true }
    } else if index + 1 < paths {
        CloseStep::CheckPath { index: (index + 1) as usize }
    } else {
        CloseStep::Decided { wait_for_close: false }
    }
}

/// What is to be found out first. A tool that does not wait has nothing to
/// wait for, and one that gave neither paths nor files to compare waits for the
/// window to close.
pub fn first_close_step(wait: bool, paths: usize, diff_paths: usize) -> (r: CloseStep)
    ensures
        r == close_step_first(wait, paths as nat, diff_paths as nat),
{
    if !wait {
        CloseStep::Decided { wait_for_close: false }
    } else if paths > 0 {
        CloseStep::CheckPath { index: 0 }
    } else {
        CloseStep::Decided { wait_for_close: diff_paths == 0 }
    }
}

/// What is to be found out next. A directory decides that the tool waits for
/// the window to close.
pub fn next_close_step(paths: usize, index: usize, is_dir: bool) -> (r: CloseStep)
    requires
        index < paths,
    ensures
        r == close_step_behind(paths as nat, index as nat, is_dir),
{
    if is_dir {
        CloseStep::Decided { wait_for_close: true }
    } else if index + 1 < paths {
        CloseStep::CheckPath { index: index + 1 }
    } else {
        CloseStep::Decided { wait_for_close: false }
    }
}

/// What is decided in the end, going on from `step`, where `dirs` tells which
/// paths are directories.
pub open spec fn close_decision(dirs: Seq<bool>, step: CloseStep) -> bool
    decreases
            (match step {
                CloseStep::CheckPath { index } if index < dirs.len() => dirs.len() - index,
                _ => 0,
            }),
{
    match step {
        CloseStep::Decided { wait_for_close } => wait_for_close,
        CloseStep::CheckPath { index } => if index < dirs.len() && dirs.len() <= usize::MAX {
            close_decision(
                dirs,
                close_step_behind(dirs.len(), index as nat, dirs[index as int]),
            )
        } else {
            false
        },
    }
}

/// A tool that waits is kept until the window closes exactly where it gave
/// nothing to open or to compare, or where one of its paths is a directory.
pub proof fn law_waiting_for_window(wait: bool, dirs: Seq<bool>, diff_paths: nat)
    requires
        dirs.len() <= usize::MAX,
    ensures
        close_decision(dirs, close_step_first(wait, dirs.len(), diff_paths)) <==> wait && ((
        dirs.len() == 0 && diff_paths == 0) || exists|i: int|
            0 <= i < dirs.len() && #[trigger] dirs[i]),
{
    if wait && dirs.len() > 0 {
        lemma_close_decision(dirs, 0);
    }
}

proof fn lemma_close_decision(dirs: Seq<bool>, index: usize)
    requires
        index < dirs.len() <= usize::MAX,
    ensures
        close_decision(dirs, CloseStep::CheckPath { index }) <==> exists|i: int|
            index <= i < dirs.len() && #[trigger] dirs[i],
    decreases dirs.len() - index,
{
    reveal_with_fuel(close_decision, 2);
    if !dirs[index as int] && index + 1 < dirs.len() {
        lemma_close_decision(dirs, (index + 1) as usize);
    }
}

/// What became of something that the tool asked to be opened.
#[derive(Debug)]
pub enum CliItem {
    Absent,
    Failed { message: String },
    /// It is open, under that number.
    Opened { item: u64 },
}

/// The items that are open.
pub open spec fn open_items(items: Seq<CliItem>) -> Seq<u64>
    decreases items.len(),
{
    if items.len() == 0 {
        Seq::empty()
    } else {
        match items.last() {
            CliItem::Opened { item } => open_items(items.drop_last()).push(item),
            _ => open_items(items.drop_last()),
        }
    }
}

/// What the tool is told of the items that failed.
pub open spec fn failures(items: Seq<CliItem>) -> Seq<ResponseView>
    decreases items.len(),
{
    if items.len() == 0 {
        Seq::empty()
    } else {
        match items.last() {
            CliItem::Failed { message } => failures(items.drop_last()).push(
                ResponseView::Stderr { message: message@ },
            ),
            _ => failures(items.drop_last()),
        }
    }
}

/// What is to be done with the items that the tool asked for.
#[derive(Debug)]
pub struct ItemsPlan {
    /// The items whose closing is waited for.
    pub watch: Vec<u64>,
    pub responses: Vec<CliResponse>,
    pub errored: bool,
}

/// Decides what is done with the items that the tool asked for: it is told of
/// each failure, and each open item is waited for if the tool waits.
pub fn handle_cli_items(items: &Vec<CliItem>, wait: bool) -> (r: ItemsPlan)
    ensures
        r.watch@ == if wait {
            open_items(items@)
        } else {
            Seq::empty()
        },
        wait ==> forall|i: int|
            0 <= i < items@.len() && (#[trigger] items@[i]) is Opened ==> r.watch@.contains(
                items@[i]->item,
            ),
        wait ==> r.watch@.len() == items@.filter(|item: CliItem| item is Opened).len(),
        responses_view(r.responses@) == failures(items@),
        r.errored == exists|i: int| 0 <= i < items@.len() && #[trigger] items@[i] is Failed,
        r.errored == (r.responses@.len() > 0),
{
    let mut watch: Vec<u64> = Vec::new();
    let mut responses: Vec<CliResponse> = Vec::new();
    let mut errored = false;
    let mut i: usize = 0;
    assert(responses_view(responses@) =~= Seq::<ResponseView>::empty());
    while i < items.len()
        invariant
            i <= items.len(),
            watch@ == if wait {
                open_items(items@.take(i as int))
            } else {
                Seq::empty()
            },
            responses_view(responses@) == failures(items@.take(i as int)),
            errored == exists|j: int| 0 <= j < i && #[trigger] items@[j] is Failed,
        decreases items.len() - i,
    {
        let ghost before = responses@;
        assert(items@.take(i + 1).drop_last() =~= items@.take(i as int));
        match &items[i] {
            CliItem::Opened { item } => {
                if wait {
                    watch.push(*item);
                }
            },
            CliItem::Failed { message } => {
                responses.push(CliResponse::Stderr { message: message.clone() });
                errored = true;
                assert(responses_view(responses@) =~= responses_view(before).push(
                    ResponseView::Stderr { message: message@ },
                ));
                assert(items@[i as int] is Failed);
            },
            CliItem::Absent => {},
        }
        i = i + 1;
    }
    proof {
        assert(items@.take(i as int) =~= items@);
        law_every_open_item_is_waited_for(items@);
        law_failures_are_told(items@);
        assert(responses_view(responses@).len() == responses@.len());
    }
    ItemsPlan { watch, responses, errored }
}

/// The tool is told of something exactly where something failed.
pub proof fn law_failures_are_told(items: Seq<CliItem>)
    ensures
        failures(items).len() > 0 <==> exists|i: int|
            0 <= i < items.len() && #[trigger] items[i] is Failed,
    decreases items.len(),
{
    if items.len() > 0 {
        let rest = items.drop_last();
        law_failures_are_told(rest);
        if exists|i: int| 0 <= i < items.len() && #[trigger] items[i] is Failed {
            let i = choose|i: int| 0 <= i < items.len() && #[trigger] items[i] is Failed;
            if i < rest.len() {
                assert(rest[i] is Failed);
            }
        }
        if exists|i: int| 0 <= i < rest.len() && #[trigger] rest[i] is Failed {
            let i = choose|i: int| 0 <= i < rest.len() && #[trigger] rest[i] is Failed;
            assert(items[i] is Failed);
        }
        if items.last() is Failed {
            assert(items[items.len() - 1] is Failed);
        }
    }
}

/// What ends a turn of waiting.
#[derive(Debug, Clone, Copy, PartialEq, Eq, Structural)]
pub enum WaitEvent {
    /// Everything that was waited for is closed, or something can no longer be waited for.
    Released,
    /// The interval is over, and the tool was pinged, with success or without.
    Pinged { sent: bool },
}

/// Whether the tool is kept waiting for another turn: as long as something is
/// open and the tool is there.
pub fn keeps_waiting(event: WaitEvent) -> (r: bool)
    ensures
        r == (event == WaitEvent::Pinged { sent: true }),
{
    match event {
        WaitEvent::Released => false,
        WaitEvent::Pinged { sent } => sent,
    }
}

/// The name of the socket on which a release channel listens.
pub fn socket_name(release_channel: &str) -> (r: String)
    ensures
        r@ == "zed-"@ + release_channel@ + ".sock"@,
{
    "zed-".to_owned().concat(release_channel).concat(".sock")
}

/// What came of connecting to a socket that is there already.
#[derive(Debug, Clone, Copy, PartialEq, Eq, Structural)]
pub enum SocketProbe {
    Connected,
    Refused,
    OtherError,
}

/// Whether the socket is a leftover: whoever listened on it is gone.
pub fn is_stale_socket(probe: SocketProbe) -> (r: bool)
    ensures
        r == (probe == SocketProbe::Refused),
{
    match probe {
        SocketProbe::Refused => true,
        _ => false,
    }
}

} // verus!
