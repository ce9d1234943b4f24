//! How a request is read from its URLs.
//!
//! Reading goes from URL to URL. Three kinds of URL need something that only
//! the running editor knows or can do: a connection to the command line tool,
//! the settings for an SSH host, and the meaning of a link to the
//! collaboration server. There reading stops with a question, and goes on when
//! the answer is handed in. It stops too where a URL is passed over, so that
//! the editor can note it, and goes on when that is done.
use crate::codec::{
    is_uuid, is_uuid_text, pair_views, parse_form, parsed_view, percent_decode, split_url,
    url_parts, UrlParts,
};
use crate::escapes::{form_pairs, percent_decoded};
use crate::open_request::{
    empty_request, notes_view, ErrorView, KindView, OpenRequest, OpenRequestError,
    OpenRequestKind, RawOpenRequest, RequestView,
};
use crate::remote::{
    RemoteConnectionOptions, RemoteView, SshConnectionOptions, SshOptionsView,
    WslConnectionOptions, WslOptionsView,
};
use crate::text::{
    index_of, opt_view, parse_index, same_text, split_around, split_once, strings_view,
    strip_prefix, stripped,
};
use vstd::prelude::*;
use vstd::string::*;

verus! {

/// A link to the collaboration server.
#[derive(Debug)]
pub enum ZedLink {
    Channel { channel_id: u64 },
    ChannelNotes { channel_id: u64, heading: Option<String> },
}

/// What the editor has to know of an SSH host before it is opened.
#[derive(Debug)]
pub struct SshQuestion {
    pub host: String,
    pub port: Option<u16>,
    pub username: Option<String>,
    /// The password that the URL gives; it goes before one from the settings.
    pub password: Option<String>,
    /// The path that the URL gives, still percent-encoded.
    pub path: String,
}

/// Why a URL is passed over.
#[derive(Debug)]
pub enum Notice {
    /// The path that it encodes is not UTF-8.
    UndecodablePath { file: String },
    /// The number of the thread is no UUID.
    InvalidSessionId { session_id: String },
}

/// What a URL amounts to.
#[derive(Debug)]
pub enum UrlOutcome {
    /// The request has taken it in.
    Handled,
    PassedOver(Notice),
    ConnectToCli { server_name: String },
    SshOptions(SshQuestion),
    ZedLink { url: String },
}

/// Why a URL is passed over, by its characters.
pub enum NoticeView {
    UndecodablePath { file: Seq<char> },
    InvalidSessionId { session_id: Seq<char> },
}

impl View for Notice {
    type V = NoticeView;

    open spec fn view(&self) -> NoticeView {
        match *self {
            Notice::UndecodablePath { file } => NoticeView::UndecodablePath { file: file@ },
            Notice::InvalidSessionId { session_id } => NoticeView::InvalidSessionId {
                session_id: session_id@,
            },
        }
    }
}

/// A question that a URL raises, or what is to be noted of it, by its characters.
pub enum QuestionView {
    PassedOver(NoticeView),
    ConnectToCli { server_name: Seq<char> },
    SshOptions {
        host: Seq<char>,
        port: Option<u16>,
        username: Option<Seq<char>>,
        password: Option<Seq<char>>,
        path: Seq<char>,
    },
    ZedLink { url: Seq<char> },
}

impl SshQuestion {
    /// The question, by its characters.
    pub open spec fn question(&self) -> QuestionView {
        QuestionView::SshOptions {
            host: self.host@,
            port: self.port,
            username: opt_view(self.username),
            password: opt_view(self.password),
            path: self.path@,
        }
    }
}

impl UrlOutcome {
    /// The question that is left open.
    pub open spec fn question(&self) -> Option<QuestionView> {
        match *self {
            UrlOutcome::Handled => None,
            UrlOutcome::PassedOver(notice) => Some(QuestionView::PassedOver(notice@)),
            UrlOutcome::ConnectToCli { server_name } => Some(
                QuestionView::ConnectToCli { server_name: server_name@ },
            ),
            UrlOutcome::SshOptions(question) => Some(question.question()),
            UrlOutcome::ZedLink { url } => Some(QuestionView::ZedLink { url: url@ }),
        }
    }
}

/// A request with what a URL made of it, and the question that the URL leaves.
pub struct UrlStep {
    pub request: RequestView,
    pub question: Option<QuestionView>,
}

/// A request that has taken a URL in.
pub open spec fn taken(request: RequestView) -> Result<UrlStep, ErrorView> {
    Ok(UrlStep { request, question: None })
}

/// A request that waits for an answer.
pub open spec fn asked(request: RequestView, question: QuestionView) -> Result<
    UrlStep,
    ErrorView,
> {
    Ok(UrlStep { request, question: Some(question) })
}

/// The request with `kind` as what it asks for.
pub open spec fn with_kind(request: RequestView, kind: KindView) -> RequestView {
    RequestView { kind: Some(kind), ..request }
}

/// The request with one more path.
pub open spec fn with_path(request: RequestView, path: Seq<char>) -> RequestView {
    RequestView { open_paths: request.open_paths.push(path), ..request }
}

/// What a path amounts to, still percent-encoded.
pub open spec fn file_step(request: RequestView, file: Seq<char>) -> UrlStep {
    match percent_decoded(file) {
        Some(path) => UrlStep { request: with_path(request, path), question: None },
        None => UrlStep {
            request,
            question: Some(QuestionView::PassedOver(NoticeView::UndecodablePath { file })),
        },
    }
}

/// The value of the first pair of that name.
pub open spec fn first_value(pairs: Seq<(Seq<char>, Seq<char>)>, name: Seq<char>) -> Option<
    Seq<char>,
>
    decreases pairs.len(),
{
    if pairs.len() == 0 {
        None
    } else if pairs[0].0 == name {
        Some(pairs[0].1)
    } else {
        first_value(pairs.drop_first(), name)
    }
}

/// The value of the first pair of that name, unless it is empty.
pub open spec fn value_of(pairs: Seq<(Seq<char>, Seq<char>)>, name: Seq<char>) -> Option<
    Seq<char>,
> {
    match first_value(pairs, name) {
        Some(value) => if value.len() > 0 {
            Some(value)
        } else {
            None
        },
        None => None,
    }
}

/// What the number of an agent thread that was shared amounts to.
pub open spec fn thread_step(request: RequestView, session_id: Seq<char>) -> UrlStep {
    if is_uuid_text(session_id) {
        UrlStep {
            request: with_kind(request, KindView::SharedAgentThread { session_id }),
            question: None,
        }
    } else {
        UrlStep {
            request,
            question: Some(QuestionView::PassedOver(NoticeView::InvalidSessionId { session_id })),
        }
    }
}

/// The query string of a URL to clone from, behind what leads up to it.
pub open spec fn clone_query(clone_path: Seq<char>) -> Option<Seq<char>> {
    match stripped(clone_path, "/"@) {
        Some(rest) => stripped(rest, "?"@),
        None => stripped(clone_path, "?"@),
    }
}

/// What an SSH URL amounts to, given its parts.
pub open spec fn ssh_asked(
    request: RequestView,
    url: Seq<char>,
    parts: Result<
        (Option<Seq<char>>, Seq<char>, Option<Seq<char>>, Option<u16>, Seq<char>),
        Seq<char>,
    >,
) -> Result<UrlStep, ErrorView> {
    match parts {
        Err(message) => Err(ErrorView::InvalidSshUrl { message }),
        Ok((None, ..)) => Err(ErrorView::MissingSshHost { url }),
        Ok((Some(host), username, password, port, path)) => if request.open_paths.len() > 0 {
            Err(ErrorView::LocalAndSshPaths)
        } else {
            asked(
                request,
                QuestionView::SshOptions {
                    host,
                    port,
                    username: if username.len() > 0 {
                        Some(username)
                    } else {
                        None
                    },
                    password,
                    path,
                },
            )
        },
    }
}

/// What a URL that asks for an agent makes of a request.
pub open spec fn agent_step(request: RequestView, agent_path: Seq<char>) -> RequestView {
    with_kind(
        request,
        KindView::AgentPanel {
            initial_prompt: match stripped(agent_path, "?"@) {
                Some(query) => value_of(form_pairs(query), "prompt"@),
                None => None,
            },
        },
    )
}

/// What a URL to clone from makes of a request.
pub open spec fn clone_step(request: RequestView, clone_path: Seq<char>) -> Result<
    UrlStep,
    ErrorView,
> {
    match clone_query(clone_path) {
        Some(query) => match value_of(form_pairs(query), "repo"@) {
            Some(repo_url) => taken(with_kind(request, KindView::GitClone { repo_url })),
            None => Err(ErrorView::GitCloneMissingRepo),
        },
        None => Err(ErrorView::GitCloneMissingQuery),
    }
}

/// What a URL of a commit makes of a request.
pub open spec fn commit_step(request: RequestView, commit_path: Seq<char>) -> Result<
    UrlStep,
    ErrorView,
> {
    match split_around(commit_path, '?') {
        None => Err(ErrorView::GitCommitMissingQuery),
        Some((sha, query)) => if sha.len() == 0 {
            Err(ErrorView::GitCommitMissingSha)
        } else {
            match value_of(form_pairs(query), "repo"@) {
                Some(repo) => taken(
                    with_kind(with_path(request, repo), KindView::GitCommit { sha }),
                ),
                None => Err(ErrorView::GitCommitMissingRepo),
            }
        },
    }
}

/// What `url` makes of a request: the first prefix that fits decides.
pub open spec fn url_step(request: RequestView, url: Seq<char>) -> Result<UrlStep, ErrorView> {
    if let Some(server_name) = stripped(url, "zed-cli://"@) {
        asked(request, QuestionView::ConnectToCli { server_name })
    } else if let Some(action_index) = stripped(url, "zed-dock-action://"@) {
        match index_of(action_index) {
            Ok(index) => taken(with_kind(request, KindView::DockMenuAction { index })),
            Err(error) => Err(ErrorView::InvalidDockIndex(error)),
        }
    } else if let Some(file) = stripped(url, "file://"@) {
        Ok(file_step(request, file))
    } else if let Some(file) = stripped(url, "zed://file"@) {
        Ok(file_step(request, file))
    } else if let Some(file) = stripped(url, "zed://ssh"@) {
        ssh_asked(request, "ssh:/"@ + file, url_parts("ssh:/"@ + file))
    } else if let Some(extension_id) = stripped(url, "zed://extension/"@) {
        taken(with_kind(request, KindView::Extension { extension_id }))
    } else if let Some(agent_path) = stripped(url, "zed://agent"@) {
        taken(agent_step(request, agent_path))
    } else if let Some(session_id) = stripped(url, "zed://agent/shared/"@) {
        Ok(thread_step(request, session_id))
    } else if let Some(schema_path) = stripped(url, "zed://schemas/"@) {
        taken(with_kind(request, KindView::BuiltinJsonSchema { schema_path }))
    } else if url == "zed://settings"@ || url == "zed://settings/"@ {
        taken(with_kind(request, KindView::Setting { setting_path: None }))
    } else if let Some(setting_path) = stripped(url, "zed://settings/"@) {
        taken(with_kind(request, KindView::Setting { setting_path: Some(setting_path) }))
    } else if let Some(clone_path) = stripped(url, "zed://git/clone"@) {
        clone_step(request, clone_path)
    } else if let Some(commit_path) = stripped(url, "zed://git/commit/"@) {
        commit_step(request, commit_path)
    } else if stripped(url, "ssh://"@) is Some {
        ssh_asked(request, url, url_parts(url))
    } else {
        asked(request, QuestionView::ZedLink { url })
    }
}

/// The value of the first pair of that name, unless it is empty.
pub fn query_value(pairs: &Vec<(String, String)>, name: &str) -> (r: Option<String>)
    ensures
        opt_view(r) == value_of(pair_views(pairs@), name@),
{
    let ghost views = pair_views(pairs@);
    let mut i: usize = 0;
    assert(views.skip(0) =~= views);
    while i < pairs.len()
        invariant
            i <= pairs.len(),
            views == pair_views(pairs@),
            first_value(views, name@) == first_value(views.skip(i as int), name@),
        decreases pairs.len() - i,
    {
        assert(views[i as int] == (pairs@[i as int].0@, pairs@[i as int].1@));
        if same_text(pairs[i].0.as_str(), name) {
            let value = pairs[i].1.clone();
            return if value.as_str().is_empty() {
                None
            } else {
                Some(value)
            };
        }
        assert(views.skip(i as int).drop_first() =~= views.skip(i + 1));
        i = i + 1;
    }
    None
}

/// What a URL step comes to, by its characters.
pub open spec fn outcome_view(
    request: RequestView,
    outcome: Result<UrlOutcome, OpenRequestError>,
) -> Result<UrlStep, ErrorView> {
    match outcome {
        Ok(outcome) => Ok(UrlStep { request, question: outcome.question() }),
        Err(error) => Err(error@),
    }
}

/// What a step without a question comes to, by its characters.
pub open spec fn done_view(request: RequestView, done: Result<(), OpenRequestError>) -> Result<
    UrlStep,
    ErrorView,
> {
    match done {
        Ok(()) => taken(request),
        Err(error) => Err(error@),
    }
}

impl OpenRequest {
    /// Adds the path that `file` encodes; one that is not UTF-8 is passed over.
    pub fn parse_file_path(&mut self, file: &str) -> (r: UrlOutcome)
        ensures
            (UrlStep { request: final(self)@, question: r.question() }) == file_step(
                old(self)@,
                file@,
            ),
    {
        match percent_decode(file) {
            Some(path) => {
                let ghost before = self.open_paths@;
                self.open_paths.push(path);
                proof {
                    assert(strings_view(before.push(path)) =~= strings_view(before).push(path@));
                }
                UrlOutcome::Handled
            },
            None => UrlOutcome::PassedOver(Notice::UndecodablePath { file: file.to_owned() }),
        }
    }

    /// Asks for the agent panel. The path is empty or `?prompt=<text>`.
    pub fn parse_agent_url(&mut self, agent_path: &str)
        ensures
            final(self)@ == agent_step(old(self)@, agent_path@),
    {
        let initial_prompt = match strip_prefix(agent_path, "?") {
            Some(query) => query_value(&parse_form(query), "prompt"),
            None => None,
        };
        self.kind = Some(OpenRequestKind::AgentPanel { initial_prompt });
    }

    /// Asks for the thread `session_id`; what is no UUID is passed over.
    pub fn open_shared_thread(&mut self, session_id: &str) -> (r: UrlOutcome)
        ensures
            (UrlStep { request: final(self)@, question: r.question() }) == thread_step(
                old(self)@,
                session_id@,
            ),
    {
        if is_uuid(session_id) {
            self.kind = Some(
                OpenRequestKind::SharedAgentThread { session_id: session_id.to_owned() },
            );
            UrlOutcome::Handled
        } else {
            UrlOutcome::PassedOver(Notice::InvalidSessionId { session_id: session_id.to_owned() })
        }
    }

    /// Asks to clone a repository. The path is `/?repo=<url>` or `?repo=<url>`.
    pub fn parse_git_clone_url(&mut self, clone_path: &str) -> (r: Result<(), OpenRequestError>)
        ensures
            done_view(final(self)@, r) == clone_step(old(self)@, clone_path@),
            r is Err ==> final(self)@ == old(self)@,
    {
        let path = match strip_prefix(clone_path, "/") {
            Some(rest) => rest,
            None => clone_path,
        };
        match strip_prefix(path, "?") {
            Some(query) => match query_value(&parse_form(query), "repo") {
                Some(repo_url) => {
                    self.kind = Some(OpenRequestKind::GitClone { repo_url });
                    Ok(())
                },
                None => Err(OpenRequestError::GitCloneMissingRepo),
            },
            None => Err(OpenRequestError::GitCloneMissingQuery),
        }
    }

    /// Asks to show a commit. The path is `<sha>?repo=<path>`.
    pub fn parse_git_commit_url(&mut self, commit_path: &str) -> (r: Result<
        (),
        OpenRequestError,
    >)
        ensures
            done_view(final(self)@, r) == commit_step(old(self)@, commit_path@),
            r is Err ==> final(self)@ == old(self)@,
    {
        match split_once(commit_path, '?') {
            Some((sha, query)) => {
                if sha.is_empty() {
                    return Err(OpenRequestError::GitCommitMissingSha);
                }
                match query_value(&parse_form(query), "repo") {
                    Some(repo) => {
                        let ghost before = self.open_paths@;
                        self.open_paths.push(repo);
                        proof {
                            assert(strings_view(before.push(repo)) =~= strings_view(before).push(
                                repo@,
                            ));
                        }
                        self.kind = Some(OpenRequestKind::GitCommit { sha: sha.to_owned() });
                        Ok(())
                    },
                    None => Err(OpenRequestError::GitCommitMissingRepo),
                }
            },
            None => Err(OpenRequestError::GitCommitMissingQuery),
        }
    }

    /// Asks what is to be known of the host of an SSH URL, given the URL's parts.
    pub fn ask_ssh(&self, url: &str, parsed: Result<UrlParts, String>) -> (r: Result<
        SshQuestion,
        OpenRequestError,
    >)
        ensures
            match r {
                Ok(question) => asked(self@, question.question()),
                Err(error) => Err(error@),
            } == ssh_asked(self@, url@, parsed_view(parsed)),
            parsed matches Ok(parts) ==> (parts.host matches Some(host) ==> self.open_paths@.len()
                == 0 ==> (r matches Ok(question) && question.host@ == host@ && question.port
                == parts.port && opt_view(question.password) == opt_view(parts.password)
                && question.path@ == parts.path@)),
    {
        match parsed {
            Err(message) => Err(OpenRequestError::InvalidSshUrl { message }),
            Ok(parts) => match parts.host {
                None => Err(OpenRequestError::MissingSshHost { url: url.to_owned() }),
                Some(host) => if self.open_paths.len() > 0 {
                    Err(OpenRequestError::LocalAndSshPaths)
                } else {
                    let username = if parts.username.as_str().is_empty() {
                        None
                    } else {
                        Some(parts.username)
                    };
                    Ok(
                        SshQuestion {
                            host,
                            port: parts.port,
                            username,
                            password: parts.password,
                            path: parts.path,
                        },
                    )
                },
            },
        }
    }

    /// Takes an SSH URL apart and asks what is to be known of its host.
    pub fn parse_ssh_file_path(&self, url: &str) -> (r: Result<SshQuestion, OpenRequestError>)
        ensures
            match r {
                Ok(question) => asked(self@, question.question()),
                Err(error) => Err(error@),
            } == ssh_asked(self@, url@, url_parts(url@)),
    {
        let parsed = split_url(url);
        self.ask_ssh(url, parsed)
    }

    /// Takes one URL in, or asks what is to be known before it can be taken in.
    pub fn parse_url(&mut self, url: &str) -> (r: Result<UrlOutcome, OpenRequestError>)
        ensures
            outcome_view(final(self)@, r) == url_step(old(self)@, url@),
            r is Err ==> final(self)@ == old(self)@,
    {
        if let Some(server_name) = strip_prefix(url, "zed-cli://") {
            Ok(UrlOutcome::ConnectToCli { server_name: server_name.to_owned() })
        } else if let Some(action_index) = strip_prefix(url, "zed-dock-action://") {
            match parse_index(action_index) {
                Ok(index) => {
                    self.kind = Some(OpenRequestKind::DockMenuAction { index });
                    Ok(UrlOutcome::Handled)
                },
                Err(error) => Err(OpenRequestError::InvalidDockIndex(error)),
            }
        } else if let Some(file) = strip_prefix(url, "file://") {
            Ok(self.parse_file_path(file))
        } else if let Some(file) = strip_prefix(url, "zed://file") {
            Ok(self.parse_file_path(file))
        } else if let Some(file) = strip_prefix(url, "zed://ssh") {
            let ssh_url = "ssh:/".to_owned().concat(file);
            match self.parse_ssh_file_path(ssh_url.as_str()) {
                Ok(question) => Ok(UrlOutcome::SshOptions(question)),
                Err(error) => Err(error),
            }
        } else if let Some(extension_id) = strip_prefix(url, "zed://extension/") {
            self.kind = Some(OpenRequestKind::Extension { extension_id: extension_id.to_owned() });
            Ok(UrlOutcome::Handled)
        } else if let Some(agent_path) = strip_prefix(url, "zed://agent") {
            self.parse_agent_url(agent_path);
            Ok(UrlOutcome::Handled)
        } else if let Some(session_id) = strip_prefix(url, "zed://agent/shared/") {
            Ok(self.open_shared_thread(session_id))
        } else if let Some(schema_path) = strip_prefix(url, "zed://schemas/") {
            self.kind = Some(
                OpenRequestKind::BuiltinJsonSchema { schema_path: schema_path.to_owned() },
            );
            Ok(UrlOutcome::Handled)
        } else if same_text(url, "zed://settings") || same_text(url, "zed://settings/") {
            self.kind = Some(OpenRequestKind::Setting { setting_path: None });
            Ok(UrlOutcome::Handled)
        } else if let Some(setting_path) = strip_prefix(url, "zed://settings/") {
            self.kind = Some(
                OpenRequestKind::Setting { setting_path: Some(setting_path.to_owned()) },
            );
            Ok(UrlOutcome::Handled)
        } else if let Some(clone_path) = strip_prefix(url, "zed://git/clone") {
            match self.parse_git_clone_url(clone_path) {
                Ok(()) => Ok(UrlOutcome::Handled),
                Err(error) => Err(error),
            }
        } else if let Some(commit_path) = strip_prefix(url, "zed://git/commit/") {
            match self.parse_git_commit_url(commit_path) {
                Ok(()) => Ok(UrlOutcome::Handled),
                Err(error) => Err(error),
            }
        } else if strip_prefix(url, "ssh://").is_some() {
            match self.parse_ssh_file_path(url) {
                Ok(question) => Ok(UrlOutcome::SshOptions(question)),
                Err(error) => Err(error),
            }
        } else {
            Ok(UrlOutcome::ZedLink { url: url.to_owned() })
        }
    }
}

/// Where reading has come to, by its characters.
pub enum StepView {
    /// Every URL is taken in.
    Done(RequestView),
    /// A question is to be answered, or something noted; then the remaining URLs follow.
    Paused { question: QuestionView, request: RequestView, urls: Seq<Seq<char>> },
}

/// What reading `urls` one after the other comes to: it stops at the first
/// error and pauses at the first question and at the first URL that is passed over.
pub open spec fn read_urls(request: RequestView, urls: Seq<Seq<char>>) -> Result<
    StepView,
    ErrorView,
>
    decreases urls.len(),
{
    if urls.len() == 0 {
        Ok(StepView::Done(request))
    } else {
        match url_step(request, urls[0]) {
            Err(error) => Err(error),
            Ok(step) => match step.question {
                None => read_urls(step.request, urls.drop_first()),
                Some(question) => Ok(
                    StepView::Paused {
                        question,
                        request: step.request,
                        urls: urls.drop_first(),
                    },
                ),
            },
        }
    }
}

/// Reading goes on with `urls` behind a URL that was answered, or pauses there.
pub open spec fn goes_on_with(answered: Result<UrlStep, ErrorView>, urls: Seq<Seq<char>>) -> Result<
    StepView,
    ErrorView,
> {
    match answered {
        Err(error) => Err(error),
        Ok(step) => match step.question {
            None => read_urls(step.request, urls),
            Some(question) => Ok(StepView::Paused { question, request: step.request, urls }),
        },
    }
}

/// The machine that `wsl` names: a distribution, behind a user and `@` or not.
pub open spec fn wsl_connection(wsl: Seq<char>) -> Result<RemoteView, ErrorView> {
    match split_around(wsl, '@') {
        Some((user, distro_name)) => if user.len() == 0 {
            Err(ErrorView::EmptyWslUser)
        } else {
            Ok(RemoteView::Wsl(WslOptionsView { distro_name, user: Some(user) }))
        },
        None => Ok(RemoteView::Wsl(WslOptionsView { distro_name: wsl, user: None })),
    }
}

/// The request before any URL is read.
pub open spec fn initial_request(raw: RawOpenRequest) -> Result<RequestView, ErrorView> {
    let request = RequestView {
        diff_paths: raw.diff_paths@,
        diff_all: raw.diff_all,
        ..empty_request()
    };
    match raw.wsl {
        None => Ok(request),
        Some(wsl) => match wsl_connection(wsl@) {
            Ok(connection) => Ok(RequestView { remote_connection: Some(connection), ..request }),
            Err(error) => Err(error),
        },
    }
}

/// What reading a request comes to.
pub open spec fn read_request(raw: RawOpenRequest) -> Result<StepView, ErrorView> {
    match initial_request(raw) {
        Ok(request) => read_urls(request, strings_view(raw.urls@)),
        Err(error) => Err(error),
    }
}

/// The request once the command line tool is connected to, or is not.
pub open spec fn cli_answered(request: RequestView, connection: Result<u64, Seq<char>>) -> Result<
    UrlStep,
    ErrorView,
> {
    match connection {
        Ok(connection) => taken(with_kind(request, KindView::CliConnection(connection))),
        Err(message) => Err(ErrorView::CliConnection { message }),
    }
}

/// The machine that an SSH URL asks for, given what the settings say of its host.
pub open spec fn ssh_remote(options: SshOptionsView, password: Option<Seq<char>>) -> RemoteView {
    RemoteView::Ssh(
        match password {
            Some(password) => SshOptionsView { password: Some(password), ..options },
            None => options,
        },
    )
}

/// What an SSH URL amounts to once the settings of its host are known.
pub open spec fn ssh_answered(
    request: RequestView,
    password: Option<Seq<char>>,
    path: Seq<char>,
    options: SshOptionsView,
) -> Result<UrlStep, ErrorView> {
    let connection = ssh_remote(options, password);
    if request.remote_connection matches Some(other) && other != connection {
        Err(ErrorView::DifferentRemotes)
    } else {
        Ok(file_step(RequestView { remote_connection: Some(connection), ..request }, path))
    }
}

/// The request once a link is known to lead somewhere, or not to.
pub open spec fn link_answered(request: RequestView, link: Option<ZedLink>) -> RequestView {
    match link {
        Some(ZedLink::Channel { channel_id }) => RequestView {
            join_channel: Some(channel_id),
            ..request
        },
        Some(ZedLink::ChannelNotes { channel_id, heading }) => RequestView {
            open_channel_notes: request.open_channel_notes.push((channel_id, opt_view(heading))),
            ..request
        },
        None => request,
    }
}

/// A request that waits for a connection to the command line tool.
#[derive(Debug)]
pub struct PendingCliConnection {
    pub server_name: String,
    pub request: OpenRequest,
    pub urls: Vec<String>,
}

/// A request that waits for the settings of an SSH host.
#[derive(Debug)]
pub struct PendingSshOptions {
    pub question: SshQuestion,
    pub request: OpenRequest,
    pub urls: Vec<String>,
}

/// A request that waits for the meaning of a link.
#[derive(Debug)]
pub struct PendingZedLink {
    pub url: String,
    pub request: OpenRequest,
    pub urls: Vec<String>,
}

/// A request of which something is to be noted before it is read on.
#[derive(Debug)]
pub struct PendingNotice {
    pub notice: Notice,
    pub request: OpenRequest,
    pub urls: Vec<String>,
}

/// Where reading has come to.
#[derive(Debug)]
pub enum ParseStep {
    Done(OpenRequest),
    PassedOver(PendingNotice),
    ConnectToCli(PendingCliConnection),
    SshOptions(PendingSshOptions),
    ZedLink(PendingZedLink),
}

impl View for ParseStep {
    type V = StepView;

    open spec fn view(&self) -> StepView {
        match *self {
            ParseStep::Done(request) => StepView::Done(request@),
            ParseStep::PassedOver(pending) => StepView::Paused {
                question: QuestionView::PassedOver(pending.notice@),
                request: pending.request@,
                urls: strings_view(pending.urls@),
            },
            ParseStep::ConnectToCli(pending) => StepView::Paused {
                question: QuestionView::ConnectToCli { server_name: pending.server_name@ },
                request: pending.request@,
                urls: strings_view(pending.urls@),
            },
            ParseStep::SshOptions(pending) => StepView::Paused {
                question: pending.question.question(),
                request: pending.request@,
                urls: strings_view(pending.urls@),
            },
            ParseStep::ZedLink(pending) => StepView::Paused {
                question: QuestionView::ZedLink { url: pending.url@ },
                request: pending.request@,
                urls: strings_view(pending.urls@),
            },
        }
    }
}

/// Where reading has come to, or why it ended, by its characters.
pub open spec fn step_view(step: Result<ParseStep, OpenRequestError>) -> Result<
    StepView,
    ErrorView,
> {
    match step {
        Ok(step) => Ok(step@),
        Err(error) => Err(error@),
    }
}

impl OpenRequest {
    /// Reads a request up to its end, its first error or its first question.
    pub fn parse(raw: RawOpenRequest) -> (r: Result<ParseStep, OpenRequestError>)
        ensures
            step_view(r) == read_request(raw),
    {
        let mut request = OpenRequest::default();
        request.diff_paths = raw.diff_paths;
        request.diff_all = raw.diff_all;
        if let Some(wsl) = raw.wsl {
            let connection = match split_once(wsl.as_str(), '@') {
                Some((user, distro)) => {
                    if user.is_empty() {
                        return Err(OpenRequestError::EmptyWslUser);
                    }
                    WslConnectionOptions {
                        user: Some(user.to_owned()),
                        distro_name: distro.to_owned(),
                    }
                },
                None => WslConnectionOptions { user: None, distro_name: wsl.clone() },
            };
            request.remote_connection = Some(RemoteConnectionOptions::Wsl(connection));
        }
        assert(initial_request(raw) == Ok::<_, ErrorView>(request@));
        request.parse_urls(raw.urls)
    }

    /// Reads the remaining URLs up to their end, the first error or the first question.
    pub fn parse_urls(self, urls: Vec<String>) -> (r: Result<ParseStep, OpenRequestError>)
        ensures
            step_view(r) == read_urls(self@, strings_view(urls@)),
    {
        let mut request = self;
        let mut rest = urls;
        while rest.len() > 0
            invariant
                read_urls(self@, strings_view(urls@)) == read_urls(
                    request@,
                    strings_view(rest@),
                ),
            decreases rest.len(),
        {
            let ghost before = rest@;
            let url = rest.remove(0);
            proof {
                assert(strings_view(before)[0] == url@);
                assert(strings_view(before).drop_first() =~= strings_view(rest@));
            }
            match request.parse_url(url.as_str()) {
                Err(error) => {
                    return Err(error);
                },
                Ok(UrlOutcome::Handled) => {},
                Ok(UrlOutcome::PassedOver(notice)) => {
                    return Ok(
                        ParseStep::PassedOver(PendingNotice { notice, request, urls: rest }),
                    );
                },
                Ok(UrlOutcome::ConnectToCli { server_name }) => {
                    return Ok(
                        ParseStep::ConnectToCli(
                            PendingCliConnection { server_name, request, urls: rest },
                        ),
                    );
                },
                Ok(UrlOutcome::SshOptions(question)) => {
                    return Ok(
                        ParseStep::SshOptions(PendingSshOptions { question, request, urls: rest }),
                    );
                },
                Ok(UrlOutcome::ZedLink { url }) => {
                    return Ok(ParseStep::ZedLink(PendingZedLink { url, request, urls: rest }));
                },
            }
        }
        Ok(ParseStep::Done(request))
    }
}

impl PendingCliConnection {
    /// Goes on with the connection, by the number under which it is kept, or
    /// ends with the message of why there is none.
    pub fn answer(self, connection: Result<u64, String>) -> (r: Result<
        ParseStep,
        OpenRequestError,
    >)
        ensures
            step_view(r) == goes_on_with(
                cli_answered(
                    self.request@,
                    match connection {
                        Ok(connection) => Ok(connection),
                        Err(message) => Err(message@),
                    },
                ),
                strings_view(self.urls@),
            ),
    {
        let mut request = self.request;
        match connection {
            Ok(connection) => {
                request.kind = Some(OpenRequestKind::CliConnection(connection));
                request.parse_urls(self.urls)
            },
            Err(message) => Err(OpenRequestError::CliConnection { message }),
        }
    }
}

impl PendingSshOptions {
    /// Goes on with what the settings say of the host.
    pub fn answer(self, options: SshConnectionOptions) -> (r: Result<ParseStep, OpenRequestError>)
        ensures
            step_view(r) == goes_on_with(
                ssh_answered(
                    self.request@,
                    opt_view(self.question.password),
                    self.question.path@,
                    options@,
                ),
                strings_view(self.urls@),
            ),
    {
        let mut request = self.request;
        let mut options = options;
        if let Some(password) = self.question.password {
            options.password = Some(password);
        }
        let connection = RemoteConnectionOptions::Ssh(options);
        if let Some(other) = &request.remote_connection {
            if *other != connection {
                return Err(OpenRequestError::DifferentRemotes);
            }
        }
        request.remote_connection = Some(connection);
        match request.parse_file_path(self.question.path.as_str()) {
            UrlOutcome::PassedOver(notice) => Ok(
                ParseStep::PassedOver(PendingNotice { notice, request, urls: self.urls }),
            ),
            _ => request.parse_urls(self.urls),
        }
    }
}

impl PendingNotice {
    /// Goes on once the URL that is passed over has been noted.
    pub fn noted(self) -> (r: Result<ParseStep, OpenRequestError>)
        ensures
            step_view(r) == read_urls(self.request@, strings_view(self.urls@)),
    {
        self.request.parse_urls(self.urls)
    }
}

impl PendingZedLink {
    /// Goes on with where the link leads; one that leads nowhere is passed over.
    pub fn answer(self, link: Option<ZedLink>) -> (r: Result<ParseStep, OpenRequestError>)
        ensures
            step_view(r) == read_urls(
                link_answered(self.request@, link),
                strings_view(self.urls@),
            ),
    {
        let mut request = self.request;
        match link {
            Some(ZedLink::Channel { channel_id }) => {
                request.join_channel = Some(channel_id);
            },
            Some(ZedLink::ChannelNotes { channel_id, heading }) => {
                let ghost before = request.open_channel_notes@;
                request.open_channel_notes.push((channel_id, heading));
                proof {
                    assert(notes_view(before.push((channel_id, heading))) =~= notes_view(
                        before,
                    ).push((channel_id, opt_view(heading))));
                }
            },
            None => {},
        }
        request.parse_urls(self.urls)
    }
}

} // verus!
