//! Requests to open files, projects and panels.
use crate::codec::utf8_lossy;
use crate::escapes::lossy_text;
use crate::remote::{RemoteConnectionOptions, RemoteView};
use crate::text::{opt_view, strings_view, IndexError};
use vstd::prelude::*;
use vstd::string::*;

verus! {

/// A request as it comes in: URLs, pairs of files to compare, and the Linux
/// distribution that the paths are meant for.
pub struct RawOpenRequest {
    pub urls: Vec<String>,
    pub diff_paths: Vec<[String; 2]>,
    pub diff_all: bool,
    pub wsl: Option<String>,
}

impl Default for RawOpenRequest {
    fn default() -> (r: Self)
        ensures
            r.urls@.len() == 0,
            r.diff_paths@.len() == 0,
            !r.diff_all,
            r.wsl is None,
    {
        RawOpenRequest { urls: Vec::new(), diff_paths: Vec::new(), diff_all: false, wsl: None }
    }
}

impl RawOpenRequest {
    /// The request that a datagram on the editor's socket makes: its text is a URL.
    pub fn from_datagram(bytes: &[u8]) -> (r: Self)
        ensures
            strings_view(r.urls@) == seq![lossy_text(bytes@)],
            r.diff_paths@.len() == 0,
            !r.diff_all,
            r.wsl is None,
    {
        let mut urls: Vec<String> = Vec::new();
        urls.push(utf8_lossy(bytes));
        assert(strings_view(urls@) =~= seq![urls@[0]@]);
        RawOpenRequest { urls, diff_paths: Vec::new(), diff_all: false, wsl: None }
    }
}

/// What a request asks for besides paths.
#[derive(Debug)]
pub enum OpenRequestKind {
    /// A connection to the command line tool, by the number under which it is kept.
    CliConnection(u64),
    Extension { extension_id: String },
    AgentPanel { initial_prompt: Option<String> },
    SharedAgentThread { session_id: String },
    DockMenuAction { index: usize },
    BuiltinJsonSchema { schema_path: String },
    Setting {
        /// `None` opens settings without navigating to a specific path.
        setting_path: Option<String>,
    },
    GitClone { repo_url: String },
    GitCommit { sha: String },
}

/// What a request asks for, by its characters.
pub enum KindView {
    CliConnection(u64),
    Extension { extension_id: Seq<char> },
    AgentPanel { initial_prompt: Option<Seq<char>> },
    SharedAgentThread { session_id: Seq<char> },
    DockMenuAction { index: nat },
    BuiltinJsonSchema { schema_path: Seq<char> },
    Setting { setting_path: Option<Seq<char>> },
    GitClone { repo_url: Seq<char> },
    GitCommit { sha: Seq<char> },
}

impl View for OpenRequestKind {
    type V = KindView;

    open spec fn view(&self) -> KindView {
        match *self {
            OpenRequestKind::CliConnection(connection) => KindView::CliConnection(connection),
            OpenRequestKind::Extension { extension_id } => KindView::Extension {
                extension_id: extension_id@,
            },
            OpenRequestKind::AgentPanel { initial_prompt } => KindView::AgentPanel {
                initial_prompt: opt_view(initial_prompt),
            },
            OpenRequestKind::SharedAgentThread { session_id } => KindView::SharedAgentThread {
                session_id: session_id@,
            },
            OpenRequestKind::DockMenuAction { index } => KindView::DockMenuAction {
                index: index as nat,
            },
            OpenRequestKind::BuiltinJsonSchema { schema_path } => KindView::BuiltinJsonSchema {
                schema_path: schema_path@,
            },
            OpenRequestKind::Setting { setting_path } => KindView::Setting {
                setting_path: opt_view(setting_path),
            },
            OpenRequestKind::GitClone { repo_url } => KindView::GitClone { repo_url: repo_url@ },
            OpenRequestKind::GitCommit { sha } => KindView::GitCommit { sha: sha@ },
        }
    }
}

/// What is to be opened.
#[derive(Debug)]
pub struct OpenRequest {
    pub kind: Option<OpenRequestKind>,
    pub open_paths: Vec<String>,
    pub diff_paths: Vec<[String; 2]>,
    pub diff_all: bool,
    pub open_channel_notes: Vec<(u64, Option<String>)>,
    pub join_channel: Option<u64>,
    pub remote_connection: Option<RemoteConnectionOptions>,
}

/// The views of the notes that are to be opened.
pub open spec fn notes_view(notes: Seq<(u64, Option<String>)>) -> Seq<(u64, Option<Seq<char>>)> {
    notes.map_values(|note: (u64, Option<String>)| (note.0, opt_view(note.1)))
}

/// What is to be opened, by its characters.
pub struct RequestView {
    pub kind: Option<KindView>,
    pub open_paths: Seq<Seq<char>>,
    pub diff_paths: Seq<[String; 2]>,
    pub diff_all: bool,
    pub open_channel_notes: Seq<(u64, Option<Seq<char>>)>,
    pub join_channel: Option<u64>,
    pub remote_connection: Option<RemoteView>,
}

impl View for OpenRequest {
    type V = RequestView;

    open spec fn view(&self) -> RequestView {
        RequestView {
            kind: match self.kind {
                Some(kind) => Some(kind@),
                None => None,
            },
            open_paths: strings_view(self.open_paths@),
            diff_paths: self.diff_paths@,
            diff_all: self.diff_all,
            open_channel_notes: notes_view(self.open_channel_notes@),
            join_channel: self.join_channel,
            remote_connection: match self.remote_connection {
                Some(connection) => Some(connection@),
                None => None,
            },
        }
    }
}

/// The request that opens nothing.
pub open spec fn empty_request() -> RequestView {
    RequestView {
        kind: None,
        open_paths: Seq::empty(),
        diff_paths: Seq::empty(),
        diff_all: false,
        open_channel_notes: Seq::empty(),
        join_channel: None,
        remote_connection: None,
    }
}

impl Default for OpenRequest {
    fn default() -> (r: Self)
        ensures
            r@ == empty_request(),
    {
        let r = OpenRequest {
            kind: None,
            open_paths: Vec::new(),
            diff_paths: Vec::new(),
            diff_all: false,
            open_channel_notes: Vec::new(),
            join_channel: None,
            remote_connection: None,
        };
        proof {
            assert(r@.open_paths =~= Seq::<Seq<char>>::empty());
            assert(r@.diff_paths =~= Seq::<[String; 2]>::empty());
            assert(r@.open_channel_notes =~= Seq::<(u64, Option<Seq<char>>)>::empty());
        }
        r
    }
}

/// Why a request cannot be read.
#[derive(Debug)]
pub enum OpenRequestError {
    /// The distribution is given with an empty user in front.
    EmptyWslUser,
    /// The command line tool could not be connected to.
    CliConnection { message: String },
    /// The number of a dock action is none.
    InvalidDockIndex(IndexError),
    GitCloneMissingQuery,
    GitCloneMissingRepo,
    GitCommitMissingQuery,
    GitCommitMissingSha,
    GitCommitMissingRepo,
    /// The SSH URL is not a URL.
    InvalidSshUrl { message: String },
    /// The SSH URL names no host.
    MissingSshHost { url: String },
    /// An SSH URL comes behind a path.
    LocalAndSshPaths,
    /// An SSH URL asks for another machine than the request does already.
    DifferentRemotes,
}

/// Why a request cannot be read, by its characters.
pub enum ErrorView {
    EmptyWslUser,
    CliConnection { message: Seq<char> },
    InvalidDockIndex(IndexError),
    GitCloneMissingQuery,
    GitCloneMissingRepo,
    GitCommitMissingQuery,
    GitCommitMissingSha,
    GitCommitMissingRepo,
    InvalidSshUrl { message: Seq<char> },
    MissingSshHost { url: Seq<char> },
    LocalAndSshPaths,
    DifferentRemotes,
}

impl View for OpenRequestError {
    type V = ErrorView;

    open spec fn view(&self) -> ErrorView {
        match *self {
            OpenRequestError::EmptyWslUser => ErrorView::EmptyWslUser,
            OpenRequestError::CliConnection { message } => ErrorView::CliConnection {
                message: message@,
            },
            OpenRequestError::InvalidDockIndex(error) => ErrorView::InvalidDockIndex(error),
            OpenRequestError::GitCloneMissingQuery => ErrorView::GitCloneMissingQuery,
            OpenRequestError::GitCloneMissingRepo => ErrorView::GitCloneMissingRepo,
            OpenRequestError::GitCommitMissingQuery => ErrorView::GitCommitMissingQuery,
            OpenRequestError::GitCommitMissingSha => ErrorView::GitCommitMissingSha,
            OpenRequestError::GitCommitMissingRepo => ErrorView::GitCommitMissingRepo,
            OpenRequestError::InvalidSshUrl { message } => ErrorView::InvalidSshUrl {
                message: message@,
            },
            OpenRequestError::MissingSshHost { url } => ErrorView::MissingSshHost { url: url@ },
            OpenRequestError::LocalAndSshPaths => ErrorView::LocalAndSshPaths,
            OpenRequestError::DifferentRemotes => ErrorView::DifferentRemotes,
        }
    }
}

/// What a user is told of an error.
pub open spec fn error_message(error: ErrorView) -> Seq<char> {
    match error {
        ErrorView::EmptyWslUser => "user is empty in wsl argument"@,
        ErrorView::CliConnection { message } => message,
        ErrorView::InvalidDockIndex(IndexError::Empty) =>
            "cannot parse integer from empty string"@,
        ErrorView::InvalidDockIndex(IndexError::InvalidDigit) => "invalid digit found in string"@,
        ErrorView::InvalidDockIndex(IndexError::Overflow) =>
            "number too large to fit in target type"@,
        ErrorView::GitCloneMissingQuery => "invalid git clone url: missing query string"@,
        ErrorView::GitCloneMissingRepo => "invalid git clone url: missing repo query parameter"@,
        ErrorView::GitCommitMissingQuery => "invalid git commit url: missing query string"@,
        ErrorView::GitCommitMissingSha => "invalid git commit url: missing sha"@,
        ErrorView::GitCommitMissingRepo =>
            "invalid git commit url: missing repo query parameter"@,
        ErrorView::InvalidSshUrl { message } => message,
        ErrorView::MissingSshHost { url } => "missing host in ssh url: "@ + url,
        ErrorView::LocalAndSshPaths => "cannot open both local and ssh paths"@,
        ErrorView::DifferentRemotes => "cannot open multiple different remote connections"@,
    }
}

impl OpenRequestError {
    /// What a user is told of the error.
    pub fn message(&self) -> (r: String)
        ensures
            r@ == error_message(self@),
    {
        match self {
            OpenRequestError::EmptyWslUser => "user is empty in wsl argument".to_owned(),
            OpenRequestError::CliConnection { message } => message.clone(),
            OpenRequestError::InvalidDockIndex(error) => match error {
                IndexError::Empty => "cannot parse integer from empty string".to_owned(),
                IndexError::InvalidDigit => "invalid digit found in string".to_owned(),
                IndexError::Overflow => "number too large to fit in target type".to_owned(),
            },
            OpenRequestError::GitCloneMissingQuery => {
                "invalid git clone url: missing query string".to_owned()
            },
            OpenRequestError::GitCloneMissingRepo => {
                "invalid git clone url: missing repo query parameter".to_owned()
            },
            OpenRequestError::GitCommitMissingQuery => {
                "invalid git commit url: missing query string".to_owned()
            },
            OpenRequestError::GitCommitMissingSha => {
                "invalid git commit url: missing sha".to_owned()
            },
            OpenRequestError::GitCommitMissingRepo => {
                "invalid git commit url: missing repo query parameter".to_owned()
            },
            OpenRequestError::InvalidSshUrl { message } => message.clone(),
            OpenRequestError::MissingSshHost { url } => {
                "missing host in ssh url: ".to_owned().concat(url.as_str())
            },
            OpenRequestError::LocalAndSshPaths => {
                "cannot open both local and ssh paths".to_owned()
            },
            OpenRequestError::DifferentRemotes => {
                "cannot open multiple different remote connections".to_owned()
            },
        }
    }
}

} // verus!
