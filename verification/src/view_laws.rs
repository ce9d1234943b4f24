//! What is seen of a value: all of it, each part as it is, and strings by their
//! characters.
use crate::codec::{pair_views, parsed_view, UrlParts};
use crate::open_request::{
    empty_request, error_message, notes_view, ErrorView, KindView, OpenRequest, OpenRequestError,
    OpenRequestKind,
};
use crate::parse::{
    done_view, outcome_view, step_view, Notice, NoticeView, ParseStep, PendingCliConnection,
    PendingNotice, PendingSshOptions, PendingZedLink, QuestionView, SshQuestion, StepView,
    UrlOutcome, UrlStep,
};
use crate::remote::{
    forwards_view, RemoteConnectionOptions, RemoteView, SshConnectionOptions, SshPortForward,
    WslConnectionOptions,
};
use crate::text::{opt_view, strings_view, IndexError};
use crate::text_laws::law_list_of_texts;
use vstd::prelude::*;

verus! {

/// Whether two optional strings are both absent or hold the same characters.
pub open spec fn same_optional(a: Option<String>, b: Option<String>) -> bool {
    match (a, b) {
        (Some(a), Some(b)) => a@ == b@,
        (None, None) => true,
        _ => false,
    }
}

/// Whether two forwarded ports agree in every part.
pub open spec fn same_forward(a: SshPortForward, b: SshPortForward) -> bool {
    &&& same_optional(a.local_host, b.local_host)
    &&& a.local_port == b.local_port
    &&& same_optional(a.remote_host, b.remote_host)
    &&& a.remote_port == b.remote_port
}

/// Two forwarded ports are equal exactly where they agree in every part.
pub proof fn law_equal_forwards(a: SshPortForward, b: SshPortForward)
    ensures
        a@ == b@ <==> same_forward(a, b),
{
}

/// Whether two ways to connect over SSH agree in every part.
pub open spec fn same_ssh_options(a: SshConnectionOptions, b: SshConnectionOptions) -> bool {
    &&& a.host@ == b.host@
    &&& same_optional(a.username, b.username)
    &&& a.port == b.port
    &&& same_optional(a.password, b.password)
    &&& match (a.args, b.args) {
        (Some(a), Some(b)) => a@.len() == b@.len() && forall|i: int|
            0 <= i < a@.len() ==> (#[trigger] a@[i])@ == b@[i]@,
        (None, None) => true,
        _ => false,
    }
    &&& match (a.port_forwards, b.port_forwards) {
        (Some(a), Some(b)) => a@.len() == b@.len() && forall|i: int|
            0 <= i < a@.len() ==> same_forward(#[trigger] a@[i], b@[i]),
        (None, None) => true,
        _ => false,
    }
    &&& same_optional(a.nickname, b.nickname)
    &&& a.upload_binary_over_ssh == b.upload_binary_over_ssh
    &&& a.connection_timeout == b.connection_timeout
}

proof fn lemma_equal_texts(a: Seq<String>, b: Seq<String>)
    ensures
        strings_view(a) == strings_view(b) <==> a.len() == b.len() && forall|i: int|
            0 <= i < a.len() ==> (#[trigger] a[i])@ == b[i]@,
{
    law_list_of_texts(a);
    law_list_of_texts(b);
    if strings_view(a) == strings_view(b) {
        assert forall|i: int| 0 <= i < a.len() implies (#[trigger] a[i])@ == b[i]@ by {
            assert(strings_view(a)[i] == strings_view(b)[i]);
        }
    } else if a.len() == b.len() && forall|i: int|
        0 <= i < a.len() ==> (#[trigger] a[i])@ == b[i]@ {
        assert(strings_view(a) =~= strings_view(b));
    }
}

proof fn lemma_equal_lists_of_forwards(a: Seq<SshPortForward>, b: Seq<SshPortForward>)
    ensures
        forwards_view(a) == forwards_view(b) <==> a.len() == b.len() && forall|i: int|
            0 <= i < a.len() ==> same_forward(#[trigger] a[i], b[i]),
{
    if forwards_view(a) == forwards_view(b) {
        assert(forwards_view(a).len() == forwards_view(b).len());
        assert forall|i: int| 0 <= i < a.len() implies same_forward(#[trigger] a[i], b[i]) by {
            assert(forwards_view(a)[i] == forwards_view(b)[i]);
            law_equal_forwards(a[i], b[i]);
        }
    } else if a.len() == b.len() && forall|i: int|
        0 <= i < a.len() ==> same_forward(#[trigger] a[i], b[i]) {
        assert forall|i: int| 0 <= i < a.len() implies forwards_view(a)[i] == forwards_view(
            b,
        )[i] by {
            law_equal_forwards(a[i], b[i]);
        }
        assert(forwards_view(a) =~= forwards_view(b));
    }
}

/// Two ways to connect over SSH are equal exactly where they agree in every part.
pub proof fn law_equal_ssh_options(a: SshConnectionOptions, b: SshConnectionOptions)
    ensures
        a@ == b@ <==> same_ssh_options(a, b),
{
    if a.args is Some && b.args is Some {
        lemma_equal_texts(a.args->0@, b.args->0@);
    }
    if a.port_forwards is Some && b.port_forwards is Some {
        lemma_equal_lists_of_forwards(a.port_forwards->0@, b.port_forwards->0@);
    }
}

/// Two remote machines are equal exactly where they are reached alike.
pub proof fn law_equal_machines(a: RemoteConnectionOptions, b: RemoteConnectionOptions)
    ensures
        a@ == b@ <==> match (a, b) {
            (RemoteConnectionOptions::Ssh(a), RemoteConnectionOptions::Ssh(b)) => same_ssh_options(
                a,
                b,
            ),
            (RemoteConnectionOptions::Wsl(a), RemoteConnectionOptions::Wsl(b)) => a.distro_name@
                == b.distro_name@ && same_optional(a.user, b.user),
            _ => false,
        },
{
    match (a, b) {
        (RemoteConnectionOptions::Ssh(a), RemoteConnectionOptions::Ssh(b)) => {
            law_equal_ssh_options(a, b);
        },
        _ => {},
    }
}

/// The parts of the ways to connect are seen as they are.
pub proof fn law_ways_to_connect(ssh: SshConnectionOptions, wsl: WslConnectionOptions)
    ensures
        RemoteConnectionOptions::Ssh(ssh)@ == RemoteView::Ssh(ssh@),
        RemoteConnectionOptions::Wsl(wsl)@ == RemoteView::Wsl(wsl@),
        ssh@.host == ssh.host@,
        ssh@.username == opt_view(ssh.username),
        ssh@.port == ssh.port,
        ssh@.password == opt_view(ssh.password),
        ssh@.nickname == opt_view(ssh.nickname),
        ssh@.upload_binary_over_ssh == ssh.upload_binary_over_ssh,
        ssh@.connection_timeout == ssh.connection_timeout,
        ssh.args is None ==> ssh@.args is None,
        ssh.args matches Some(args) ==> ssh@.args == Some(strings_view(args@)),
        ssh.port_forwards is None ==> ssh@.port_forwards is None,
        ssh.port_forwards matches Some(forwards) ==> (ssh@.port_forwards matches Some(seen)
            && seen.len() == forwards@.len() && forall|i: int|
            0 <= i < seen.len() ==> #[trigger] seen[i] == forwards@[i]@),
        wsl@.distro_name == wsl.distro_name@,
        wsl@.user == opt_view(wsl.user),
{
}

/// The parts of a request are seen as they are, and nothing is left out.
pub proof fn law_parts_of_request(request: OpenRequest)
    ensures
        request.kind is None <==> request@.kind is None,
        request.kind matches Some(kind) ==> request@.kind == Some(kind@),
        request@.open_paths.len() == request.open_paths@.len(),
        forall|i: int|
            0 <= i < request.open_paths@.len() ==> #[trigger] request@.open_paths[i]
                == request.open_paths@[i]@,
        request@.diff_paths == request.diff_paths@,
        request@.diff_all == request.diff_all,
        request@.open_channel_notes.len() == request.open_channel_notes@.len(),
        forall|i: int|
            0 <= i < request.open_channel_notes@.len() ==> (
            #[trigger] request@.open_channel_notes[i]) == (
                request.open_channel_notes@[i].0,
                opt_view(request.open_channel_notes@[i].1),
            ),
        request@.join_channel == request.join_channel,
        request.remote_connection is None <==> request@.remote_connection is None,
        request.remote_connection matches Some(connection) ==> request@.remote_connection == Some(
            connection@,
        ),
{
}

/// The request that opens nothing opens nothing.
pub proof fn law_empty_request()
    ensures
        empty_request().kind is None,
        empty_request().open_paths.len() == 0,
        empty_request().diff_paths.len() == 0,
        !empty_request().diff_all,
        empty_request().open_channel_notes.len() == 0,
        empty_request().join_channel is None,
        empty_request().remote_connection is None,
{
}

/// What is asked for besides paths is seen as it is.
pub proof fn law_kinds(connection: u64, text: String, maybe: Option<String>, index: usize)
    ensures
        OpenRequestKind::CliConnection(connection)@ == KindView::CliConnection(connection),
        (OpenRequestKind::Extension { extension_id: text })@ == (KindView::Extension {
            extension_id: text@,
        }),
        (OpenRequestKind::AgentPanel { initial_prompt: maybe })@ == (KindView::AgentPanel {
            initial_prompt: opt_view(maybe),
        }),
        (OpenRequestKind::SharedAgentThread { session_id: text })@ == (
        KindView::SharedAgentThread { session_id: text@ }),
        (OpenRequestKind::DockMenuAction { index })@ == (KindView::DockMenuAction {
            index: index as nat,
        }),
        (OpenRequestKind::BuiltinJsonSchema { schema_path: text })@ == (
        KindView::BuiltinJsonSchema { schema_path: text@ }),
        (OpenRequestKind::Setting { setting_path: maybe })@ == (KindView::Setting {
            setting_path: opt_view(maybe),
        }),
        (OpenRequestKind::GitClone { repo_url: text })@ == (KindView::GitClone { repo_url: text@ }),
        (OpenRequestKind::GitCommit { sha: text })@ == (KindView::GitCommit { sha: text@ }),
{
}

/// Errors are seen as they are.
pub proof fn law_errors(text: String, error: IndexError)
    ensures
        OpenRequestError::EmptyWslUser@ == ErrorView::EmptyWslUser,
        (OpenRequestError::CliConnection { message: text })@ == (ErrorView::CliConnection {
            message: text@,
        }),
        OpenRequestError::InvalidDockIndex(error)@ == ErrorView::InvalidDockIndex(error),
        OpenRequestError::GitCloneMissingQuery@ == ErrorView::GitCloneMissingQuery,
        OpenRequestError::GitCloneMissingRepo@ == ErrorView::GitCloneMissingRepo,
        OpenRequestError::GitCommitMissingQuery@ == ErrorView::GitCommitMissingQuery,
        OpenRequestError::GitCommitMissingSha@ == ErrorView::GitCommitMissingSha,
        OpenRequestError::GitCommitMissingRepo@ == ErrorView::GitCommitMissingRepo,
        (OpenRequestError::InvalidSshUrl { message: text })@ == (ErrorView::InvalidSshUrl {
            message: text@,
        }),
        (OpenRequestError::MissingSshHost { url: text })@ == (ErrorView::MissingSshHost {
            url: text@,
        }),
        OpenRequestError::LocalAndSshPaths@ == ErrorView::LocalAndSshPaths,
        OpenRequestError::DifferentRemotes@ == ErrorView::DifferentRemotes,
{
}

/// A message that comes from outside is handed on as it is, and the message on
/// a missing host ends with the URL.
pub proof fn law_messages_from_outside(text: Seq<char>)
    ensures
        error_message(ErrorView::CliConnection { message: text }) == text,
        error_message(ErrorView::InvalidSshUrl { message: text }) == text,
        error_message(ErrorView::MissingSshHost { url: text }) == "missing host in ssh url: "@
            + text,
{
}

/// The parts of a URL, and the message where it has none, are seen as they are.
pub proof fn law_parts_of_url(parts: UrlParts, message: String)
    ensures
        parsed_view(Ok(parts)) == Ok::<
            (Option<Seq<char>>, Seq<char>, Option<Seq<char>>, Option<u16>, Seq<char>),
            Seq<char>,
        >(
            (
                opt_view(parts.host),
                parts.username@,
                opt_view(parts.password),
                parts.port,
                parts.path@,
            ),
        ),
        parsed_view(Err(message)) == Err::<
            (Option<Seq<char>>, Seq<char>, Option<Seq<char>>, Option<u16>, Seq<char>),
            Seq<char>,
        >(message@),
{
}

/// Pairs are seen as the characters of their two sides, in order.
pub proof fn law_pairs(pairs: Seq<(String, String)>)
    ensures
        pair_views(pairs).len() == pairs.len(),
        forall|i: int|
            0 <= i < pairs.len() ==> #[trigger] pair_views(pairs)[i] == (pairs[i].0@, pairs[i].1@),
{
}

/// Questions and notices are seen as they are.
pub proof fn law_questions(ssh: SshQuestion, notice: Notice, text: String)
    ensures
        ssh.question() == (QuestionView::SshOptions {
            host: ssh.host@,
            port: ssh.port,
            username: opt_view(ssh.username),
            password: opt_view(ssh.password),
            path: ssh.path@,
        }),
        UrlOutcome::Handled.question() is None,
        UrlOutcome::PassedOver(notice).question() == Some(QuestionView::PassedOver(notice@)),
        (UrlOutcome::ConnectToCli { server_name: text }).question() == Some(
            QuestionView::ConnectToCli { server_name: text@ },
        ),
        UrlOutcome::SshOptions(ssh).question() == Some(ssh.question()),
        (UrlOutcome::ZedLink { url: text }).question() == Some(
            QuestionView::ZedLink { url: text@ },
        ),
        (Notice::UndecodablePath { file: text })@ == (NoticeView::UndecodablePath { file: text@ }),
        (Notice::InvalidSessionId { session_id: text })@ == (NoticeView::InvalidSessionId {
            session_id: text@,
        }),
{
}

/// Where reading has come to is seen as it is: the request, the question, and
/// the URLs that remain.
pub proof fn law_steps_of_reading(
    request: OpenRequest,
    cli: PendingCliConnection,
    ssh: PendingSshOptions,
    link: PendingZedLink,
    notice: PendingNotice,
    error: OpenRequestError,
)
    ensures
        step_view(Ok(ParseStep::Done(request))) == Ok::<StepView, ErrorView>(
            StepView::Done(request@),
        ),
        step_view(Ok(ParseStep::ConnectToCli(cli))) == Ok::<StepView, ErrorView>(
            StepView::Paused {
                question: QuestionView::ConnectToCli { server_name: cli.server_name@ },
                request: cli.request@,
                urls: strings_view(cli.urls@),
            },
        ),
        step_view(Ok(ParseStep::SshOptions(ssh))) == Ok::<StepView, ErrorView>(
            StepView::Paused {
                question: ssh.question.question(),
                request: ssh.request@,
                urls: strings_view(ssh.urls@),
            },
        ),
        step_view(Ok(ParseStep::ZedLink(link))) == Ok::<StepView, ErrorView>(
            StepView::Paused {
                question: QuestionView::ZedLink { url: link.url@ },
                request: link.request@,
                urls: strings_view(link.urls@),
            },
        ),
        step_view(Ok(ParseStep::PassedOver(notice))) == Ok::<StepView, ErrorView>(
            StepView::Paused {
                question: QuestionView::PassedOver(notice.notice@),
                request: notice.request@,
                urls: strings_view(notice.urls@),
            },
        ),
        step_view(Err(error)) == Err::<StepView, ErrorView>(error@),
{
}

/// What a URL comes to is seen as it is: the request and the question, or the error.
pub proof fn law_outcomes(request: OpenRequest, outcome: UrlOutcome, error: OpenRequestError)
    ensures
        outcome_view(request@, Ok(outcome)) == Ok::<UrlStep, ErrorView>(
            UrlStep { request: request@, question: outcome.question() },
        ),
        outcome_view(request@, Err(error)) == Err::<UrlStep, ErrorView>(error@),
        done_view(request@, Ok(())) == Ok::<UrlStep, ErrorView>(
            UrlStep { request: request@, question: None },
        ),
        done_view(request@, Err(error)) == Err::<UrlStep, ErrorView>(error@),
{
}

/// Notes are seen by their channel and the characters of their heading, in order.
pub proof fn law_notes(notes: Seq<(u64, Option<String>)>)
    ensures
        notes_view(notes).len() == notes.len(),
        forall|i: int|
            0 <= i < notes.len() ==> #[trigger] notes_view(notes)[i] == (
                notes[i].0,
                opt_view(notes[i].1),
            ),
{
}

} // verus!
