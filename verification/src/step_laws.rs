//! What each kind of URL, and each answer, makes of a request.
use crate::codec::{is_uuid_text, url_parts};
use crate::escapes::{form_pairs, percent_decoded};
use crate::open_request::{ErrorView, KindView, RawOpenRequest, RequestView};
use crate::parse::{
    asked, cli_answered, clone_query, clone_step, commit_step, file_step, goes_on_with,
    initial_request, link_answered, read_request, read_urls, ssh_answered, ssh_asked, taken,
    thread_step, url_step, value_of, with_kind, with_path, wsl_connection, NoticeView,
    QuestionView, StepView, UrlStep, ZedLink,
};
use crate::prefixes::{
    lemma_agent_prefix, lemma_clone_prefix, lemma_commit_prefix, lemma_dock_action_prefix,
    lemma_file_prefix, lemma_ssh_prefix, lemma_zed_ssh_prefix,
};
use crate::remote::{RemoteView, SshOptionsView};
use crate::text::{
    index_of, lemma_stripped, opt_view, split_around, strings_view, stripped,
};
use crate::text_laws::{law_prefix_and_rest, law_split_at_first};
use vstd::prelude::*;
use vstd::string::*;

verus! {

/// A URL that is taken in leaves no question, one that is asked about leaves
/// its own; setting what is asked for changes nothing else, and a path is added
/// behind those that are there and changes nothing else.
pub proof fn law_changes_of_request(
    request: RequestView,
    kind: KindView,
    path: Seq<char>,
    question: QuestionView,
)
    ensures
        taken(request) == Ok::<UrlStep, ErrorView>(UrlStep { request, question: None }),
        asked(request, question) == Ok::<UrlStep, ErrorView>(
            UrlStep { request, question: Some(question) },
        ),
        with_kind(request, kind) == (RequestView { kind: Some(kind), ..request }),
        with_path(request, path).open_paths == request.open_paths.push(path),
        with_path(request, path) == (RequestView {
            open_paths: with_path(request, path).open_paths,
            ..request
        }),
{
}

/// A path that decodes is added as it decodes; one that does not changes
/// nothing and is to be noted.
pub proof fn law_file(request: RequestView, file: Seq<char>)
    ensures
        percent_decoded(file) matches Some(path) ==> file_step(request, file) == (UrlStep {
            request: RequestView { open_paths: request.open_paths.push(path), ..request },
            question: None,
        }),
        percent_decoded(file) is None ==> file_step(request, file) == (UrlStep {
            request,
            question: Some(QuestionView::PassedOver(NoticeView::UndecodablePath { file })),
        }),
        url_step(request, "file://"@ + file) == Ok::<UrlStep, ErrorView>(file_step(request, file)),
{
    lemma_stripped("file://"@, file);
    lemma_file_prefix("file://"@ + file);
}

/// The number of a thread asks for the thread where it is a UUID, and else
/// changes nothing and is to be noted.
pub proof fn law_thread(request: RequestView, session_id: Seq<char>)
    ensures
        is_uuid_text(session_id) ==> thread_step(request, session_id) == (UrlStep {
            request: RequestView {
                kind: Some(KindView::SharedAgentThread { session_id }),
                ..request
            },
            question: None,
        }),
        !is_uuid_text(session_id) ==> thread_step(request, session_id) == (UrlStep {
            request,
            question: Some(QuestionView::PassedOver(NoticeView::InvalidSessionId { session_id })),
        }),
{
}

/// The first pair of a name decides its value, and an empty one gives none.
pub proof fn law_first_pair_counts(
    pairs: Seq<(Seq<char>, Seq<char>)>,
    name: Seq<char>,
    i: int,
)
    requires
        0 <= i <= pairs.len(),
        forall|j: int| 0 <= j < i ==> (#[trigger] pairs[j]).0 != name,
    ensures
        i == pairs.len() ==> value_of(pairs, name) is None,
        i < pairs.len() && pairs[i].0 == name && pairs[i].1.len() > 0 ==> value_of(pairs, name)
            == Some(pairs[i].1),
        i < pairs.len() && pairs[i].0 == name && pairs[i].1.len() == 0 ==> value_of(pairs, name)
            is None,
    decreases pairs.len(),
{
    if i > 0 {
        assert(pairs[0].0 != name);
        let rest = pairs.drop_first();
        assert forall|j: int| 0 <= j < i - 1 implies (#[trigger] rest[j]).0 != name by {
            assert(pairs[j + 1].0 != name);
        }
        law_first_pair_counts(rest, name, i - 1);
    }
}

/// A link to the command line tool asks for the connection to the server that
/// it names.
pub proof fn law_cli_link(request: RequestView, server_name: Seq<char>)
    ensures
        url_step(request, "zed-cli://"@ + server_name) == Ok::<UrlStep, ErrorView>(
            UrlStep { request, question: Some(QuestionView::ConnectToCli { server_name }) },
        ),
{
    lemma_stripped("zed-cli://"@, server_name);
}

/// A dock action asks for the entry of its index, and is refused, for the
/// reason that the index is, where it has none.
pub proof fn law_dock_link(request: RequestView, text: Seq<char>)
    ensures
        index_of(text) matches Ok(index) ==> url_step(request, "zed-dock-action://"@ + text)
            == Ok::<UrlStep, ErrorView>(
            UrlStep {
                request: RequestView { kind: Some(KindView::DockMenuAction { index }), ..request },
                question: None,
            },
        ),
        index_of(text) matches Err(error) ==> url_step(request, "zed-dock-action://"@ + text)
            == Err::<UrlStep, ErrorView>(ErrorView::InvalidDockIndex(error)),
{
    lemma_stripped("zed-dock-action://"@, text);
    lemma_dock_action_prefix("zed-dock-action://"@ + text);
}

/// An agent link asks for the agent panel with the prompt of its query, and
/// without one where it has no query.
pub proof fn law_agent_link(request: RequestView, query: Seq<char>, rest: Seq<char>)
    ensures
        url_step(request, "zed://agent?"@ + query) == Ok::<UrlStep, ErrorView>(
            UrlStep {
                request: RequestView {
                    kind: Some(
                        KindView::AgentPanel {
                            initial_prompt: value_of(form_pairs(query), "prompt"@),
                        },
                    ),
                    ..request
                },
                question: None,
            },
        ),
        stripped(rest, "?"@) is None ==> url_step(request, "zed://agent"@ + rest) == Ok::<
            UrlStep,
            ErrorView,
        >(
            UrlStep {
                request: RequestView {
                    kind: Some(KindView::AgentPanel { initial_prompt: None }),
                    ..request
                },
                question: None,
            },
        ),
{
    assert("zed://agent?"@ + query =~= "zed://agent"@ + ("?"@ + query)) by {
        reveal_strlit("?");
        reveal_strlit("zed://agent");
        reveal_strlit("zed://agent?");
    }
    lemma_stripped("?"@, query);
    lemma_stripped("zed://agent"@, "?"@ + query);
    lemma_agent_prefix("zed://agent"@ + ("?"@ + query));
    lemma_stripped("zed://agent"@, rest);
    lemma_agent_prefix("zed://agent"@ + rest);
}

/// A path to clone from has a query exactly where it is a question mark and the
/// query, behind a slash or not.
pub proof fn law_clone_query(path: Seq<char>, query: Seq<char>)
    ensures
        clone_query(path) == Some(query) <==> path == "?"@ + query || path == "/"@ + ("?"@
            + query),
{
    reveal_strlit("?");
    reveal_strlit("/");
    lemma_stripped("?"@, query);
    lemma_stripped("/"@, "?"@ + query);
    law_prefix_and_rest(path, "?"@, query);
    law_prefix_and_rest(path, "/"@, "?"@ + query);
    if stripped(path, "/"@) is Some {
        let rest = stripped(path, "/"@)->0;
        law_prefix_and_rest(path, "/"@, rest);
        law_prefix_and_rest(rest, "?"@, query);
        assert(path[0] == '/');
        if path == "?"@ + query {
            assert(path[0] == '?');
        }
    } else {
        assert(path != "/"@ + ("?"@ + query));
    }
}

/// A link to clone from asks to clone what its query gives; without a query, or
/// without a repository in it, it is refused.
pub proof fn law_clone_link(request: RequestView, path: Seq<char>)
    ensures
        url_step(request, "zed://git/clone"@ + path) == clone_step(request, path),
        clone_query(path) is None ==> clone_step(request, path) == Err::<UrlStep, ErrorView>(
            ErrorView::GitCloneMissingQuery,
        ),
        clone_query(path) matches Some(query) ==> match value_of(form_pairs(query), "repo"@) {
            None => clone_step(request, path) == Err::<UrlStep, ErrorView>(
                ErrorView::GitCloneMissingRepo,
            ),
            Some(repo_url) => clone_step(request, path) == Ok::<UrlStep, ErrorView>(
                UrlStep {
                    request: RequestView { kind: Some(KindView::GitClone { repo_url }), ..request },
                    question: None,
                },
            ),
        },
{
    lemma_stripped("zed://git/clone"@, path);
    lemma_clone_prefix("zed://git/clone"@ + path);
}

/// A link to a commit asks for the commit before its first question mark, in the
/// repository that the query behind it gives. Without a query, a commit or a
/// repository it is refused, in that order.
pub proof fn law_commit_link(request: RequestView, sha: Seq<char>, query: Seq<char>)
    requires
        !sha.contains('?'),
    ensures
        url_step(request, "zed://git/commit/"@ + sha) == Err::<UrlStep, ErrorView>(
            ErrorView::GitCommitMissingQuery,
        ),
        sha.len() == 0 ==> url_step(request, "zed://git/commit/"@ + (sha.push('?') + query))
            == Err::<UrlStep, ErrorView>(ErrorView::GitCommitMissingSha),
        sha.len() > 0 ==> match value_of(form_pairs(query), "repo"@) {
            None => url_step(request, "zed://git/commit/"@ + (sha.push('?') + query)) == Err::<
                UrlStep,
                ErrorView,
            >(ErrorView::GitCommitMissingRepo),
            Some(repo) => url_step(request, "zed://git/commit/"@ + (sha.push('?') + query))
                == Ok::<UrlStep, ErrorView>(
                UrlStep {
                    request: RequestView {
                        kind: Some(KindView::GitCommit { sha }),
                        open_paths: request.open_paths.push(repo),
                        ..request
                    },
                    question: None,
                },
            ),
        },
{
    let path = sha.push('?') + query;
    law_split_at_first(sha, '?', sha, query);
    law_split_at_first(path, '?', sha, query);
    lemma_stripped("zed://git/commit/"@, sha);
    lemma_commit_prefix("zed://git/commit/"@ + sha);
    lemma_stripped("zed://git/commit/"@, path);
    lemma_commit_prefix("zed://git/commit/"@ + path);
    assert(split_around(path, '?') == Some((sha, query)));
    assert(commit_step(request, sha) == Err::<UrlStep, ErrorView>(
        ErrorView::GitCommitMissingQuery,
    ));
}

/// An SSH URL with a host, in a request without a path so far, asks for just
/// the host, the port, the password and the path of the URL, whatever the user
/// name is; an empty user name is none.
pub proof fn law_ssh_question(
    request: RequestView,
    url: Seq<char>,
    host: Seq<char>,
    username: Seq<char>,
    password: Option<Seq<char>>,
    port: Option<u16>,
    path: Seq<char>,
)
    requires
        request.open_paths.len() == 0,
    ensures
        ssh_asked(request, url, Ok((Some(host), username, password, port, path))) matches Ok(step)
            && step.request == request && (step.question matches Some(
            QuestionView::SshOptions {
                host: asked_host,
                port: asked_port,
                username: asked_username,
                password: asked_password,
                path: asked_path,
            },
        ) && asked_host == host && asked_port == port && asked_password == password && asked_path
            == path && (username.len() > 0 ==> asked_username == Some(username)) && (username.len()
            == 0 ==> asked_username is None)),
{
}

/// An SSH URL is refused where it is no URL, where it has no host, and where a
/// path was asked for before, in that order.
pub proof fn law_ssh_refusals(
    request: RequestView,
    url: Seq<char>,
    message: Seq<char>,
    host: Seq<char>,
    username: Seq<char>,
    password: Option<Seq<char>>,
    port: Option<u16>,
    path: Seq<char>,
)
    ensures
        ssh_asked(request, url, Err(message)) == Err::<UrlStep, ErrorView>(
            ErrorView::InvalidSshUrl { message },
        ),
        ssh_asked(request, url, Ok((None, username, password, port, path))) == Err::<
            UrlStep,
            ErrorView,
        >(ErrorView::MissingSshHost { url }),
        request.open_paths.len() > 0 ==> ssh_asked(
            request,
            url,
            Ok((Some(host), username, password, port, path)),
        ) == Err::<UrlStep, ErrorView>(ErrorView::LocalAndSshPaths),
{
}

/// An SSH URL is taken as it stands, and a link to a host as the SSH URL that
/// it makes.
pub proof fn law_ssh_url(request: RequestView, rest: Seq<char>)
    ensures
        url_step(request, "ssh://"@ + rest) == ssh_asked(
            request,
            "ssh://"@ + rest,
            url_parts("ssh://"@ + rest),
        ),
        url_step(request, "zed://ssh"@ + rest) == ssh_asked(
            request,
            "ssh:/"@ + rest,
            url_parts("ssh:/"@ + rest),
        ),
{
    lemma_stripped("ssh://"@, rest);
    lemma_ssh_prefix("ssh://"@ + rest);
    lemma_stripped("zed://ssh"@, rest);
    lemma_zed_ssh_prefix("zed://ssh"@ + rest);
}

/// A URL without any of the prefixes is asked about as a link to the server.
pub proof fn law_server_link(request: RequestView, url: Seq<char>)
    requires
        stripped(url, "zed-cli://"@) is None,
        stripped(url, "zed-dock-action://"@) is None,
        stripped(url, "file://"@) is None,
        stripped(url, "zed://file"@) is None,
        stripped(url, "zed://ssh"@) is None,
        stripped(url, "zed://extension/"@) is None,
        stripped(url, "zed://agent"@) is None,
        stripped(url, "zed://schemas/"@) is None,
        stripped(url, "zed://settings/"@) is None,
        url != "zed://settings"@,
        stripped(url, "zed://git/clone"@) is None,
        stripped(url, "zed://git/commit/"@) is None,
        stripped(url, "ssh://"@) is None,
    ensures
        url_step(request, url) == Ok::<UrlStep, ErrorView>(
            UrlStep { request, question: Some(QuestionView::ZedLink { url }) },
        ),
{
    if stripped(url, "zed://agent/shared/"@) is Some {
        let rest = stripped(url, "zed://agent/shared/"@)->0;
        law_prefix_and_rest(url, "zed://agent/shared/"@, rest);
        assert(url =~= "zed://agent"@ + ("/shared/"@ + rest)) by {
            reveal_strlit("zed://agent");
            reveal_strlit("/shared/");
            reveal_strlit("zed://agent/shared/");
        }
        lemma_stripped("zed://agent"@, "/shared/"@ + rest);
    }
    if url == "zed://settings/"@ {
        lemma_stripped("zed://settings/"@, Seq::empty());
        assert("zed://settings/"@ + Seq::<char>::empty() =~= "zed://settings/"@);
    }
}

/// A connection to the tool is what is asked for then; without one reading ends.
pub proof fn law_cli_answer(request: RequestView, connection: u64, message: Seq<char>)
    ensures
        cli_answered(request, Ok(connection)) == Ok::<UrlStep, ErrorView>(
            UrlStep {
                request: RequestView {
                    kind: Some(KindView::CliConnection(connection)),
                    ..request
                },
                question: None,
            },
        ),
        cli_answered(request, Err(message)) == Err::<UrlStep, ErrorView>(
            ErrorView::CliConnection { message },
        ),
{
}

/// An SSH host is reached as the settings say, but for the password where the
/// URL gives one. It becomes the machine of the request, and the path of the URL
/// is added; where the request has another machine, reading ends.
pub proof fn law_ssh_answer(
    request: RequestView,
    password: Option<Seq<char>>,
    path: Seq<char>,
    options: SshOptionsView,
    machine: SshOptionsView,
)
    requires
        machine.host == options.host,
        machine.username == options.username,
        machine.port == options.port,
        machine.args == options.args,
        machine.port_forwards == options.port_forwards,
        machine.nickname == options.nickname,
        machine.upload_binary_over_ssh == options.upload_binary_over_ssh,
        machine.connection_timeout == options.connection_timeout,
        password is Some ==> machine.password == password,
        password is None ==> machine.password == options.password,
    ensures
        request.remote_connection is Some && request.remote_connection != Some(
            RemoteView::Ssh(machine),
        ) ==> ssh_answered(request, password, path, options) == Err::<UrlStep, ErrorView>(
            ErrorView::DifferentRemotes,
        ),
        request.remote_connection is None || request.remote_connection == Some(
            RemoteView::Ssh(machine),
        ) ==> (ssh_answered(request, password, path, options) matches Ok(step) && match
            percent_decoded(path) {
            Some(decoded) => step.question is None && step.request == (RequestView {
                remote_connection: Some(RemoteView::Ssh(machine)),
                open_paths: request.open_paths.push(decoded),
                ..request
            }),
            None => step.question == Some(
                QuestionView::PassedOver(NoticeView::UndecodablePath { file: path }),
            ) && step.request == (RequestView {
                remote_connection: Some(RemoteView::Ssh(machine)),
                ..request
            }),
        }),
{
    assert(machine == (SshOptionsView { password: machine.password, ..options }));
}

/// A link to a channel joins it, one to notes adds them behind those that are
/// there, and one that leads nowhere changes nothing.
pub proof fn law_link_answer(request: RequestView, channel_id: u64, heading: Option<String>)
    ensures
        link_answered(request, Some(ZedLink::Channel { channel_id })) == (RequestView {
            join_channel: Some(channel_id),
            ..request
        }),
        link_answered(request, Some(ZedLink::ChannelNotes { channel_id, heading })) == (
        RequestView {
            open_channel_notes: request.open_channel_notes.push((channel_id, opt_view(heading))),
            ..request
        }),
        link_answered(request, None) == request,
{
}

/// Nothing is read of no URLs; else the first URL is read, and then the rest
/// with what it has made of the request, unless it ends in an error or a question.
pub proof fn law_first_url_first(request: RequestView, url: Seq<char>, urls: Seq<Seq<char>>)
    ensures
        read_urls(request, Seq::empty()) == Ok::<StepView, ErrorView>(StepView::Done(request)),
        url_step(request, url) matches Err(error) ==> read_urls(request, seq![url] + urls)
            == Err::<StepView, ErrorView>(error),
        url_step(request, url) matches Ok(step) ==> match step.question {
            None => read_urls(request, seq![url] + urls) == read_urls(step.request, urls),
            Some(question) => read_urls(request, seq![url] + urls) == Ok::<StepView, ErrorView>(
                StepView::Paused { question, request: step.request, urls },
            ),
        },
{
    assert((seq![url] + urls)[0] == url);
    assert((seq![url] + urls).drop_first() =~= urls);
}

/// Behind an answer the remaining URLs are read, unless it ends in an error or
/// something is to be noted first.
pub proof fn law_reading_on(step: UrlStep, error: ErrorView, urls: Seq<Seq<char>>)
    ensures
        goes_on_with(Err(error), urls) == Err::<StepView, ErrorView>(error),
        step.question is None ==> goes_on_with(Ok(step), urls) == read_urls(step.request, urls),
        step.question matches Some(question) ==> goes_on_with(Ok(step), urls) == Ok::<
            StepView,
            ErrorView,
        >(StepView::Paused { question, request: step.request, urls }),
{
}

/// A request starts with the files to compare, and the distribution where one
/// is given, and with nothing else; then all its URLs are read.
pub proof fn law_start_of_reading(raw: RawOpenRequest)
    ensures
        raw.wsl is None ==> (initial_request(raw) matches Ok(request)
            && request.remote_connection is None),
        raw.wsl matches Some(wsl) ==> match wsl_connection(wsl@) {
            Ok(connection) => initial_request(raw) matches Ok(request)
                && request.remote_connection == Some(connection),
            Err(error) => initial_request(raw) == Err::<RequestView, ErrorView>(error),
        },
        initial_request(raw) matches Ok(request) ==> {
            &&& request.diff_paths == raw.diff_paths@
            &&& request.diff_all == raw.diff_all
            &&& request.kind is None
            &&& request.open_paths.len() == 0
            &&& request.open_channel_notes.len() == 0
            &&& request.join_channel is None
            &&& read_request(raw) == read_urls(request, strings_view(raw.urls@))
        },
        initial_request(raw) matches Err(error) ==> read_request(raw) == Err::<
            StepView,
            ErrorView,
        >(error),
{
}

} // verus!
