//! What holds of reading requests as a whole.
use crate::codec::url_parts;
use crate::escapes::{
    escaped, form_pairs, law_escaped_text_reads_back, law_plain_text_stands_for_itself,
    law_single_pair,
};
use crate::open_request::{ErrorView, KindView, RequestView};
use crate::parse::{
    cli_answered, link_answered, read_urls, ssh_answered, taken, url_step, value_of, with_kind,
    with_path, wsl_connection, StepView, UrlStep, ZedLink,
};
use crate::prefixes::{
    lemma_agent_prefix, lemma_clone_prefix, lemma_commit_prefix, lemma_dock_action_prefix,
    lemma_extension_prefix, lemma_file_prefix, lemma_schema_prefix, lemma_setting_prefix,
    lemma_ssh_prefix, lemma_zed_file_prefix, lemma_zed_ssh_prefix,
};
use crate::remote::{RemoteView, SshOptionsView, WslOptionsView};
use crate::text::{
    decimal, law_decimal_index_reads_back, lemma_first_position, lemma_other_prefix,
    lemma_stripped, stripped,
};
use vstd::prelude::*;
use vstd::string::*;

verus! {

/// An extension link asks for the extension that it names.
pub proof fn law_extension_link(request: RequestView, extension_id: Seq<char>)
    ensures
        url_step(request, "zed://extension/"@ + extension_id) == taken(
            with_kind(request, KindView::Extension { extension_id }),
        ),
{
    lemma_stripped("zed://extension/"@, extension_id);
    lemma_extension_prefix("zed://extension/"@ + extension_id);
}

/// A schema link asks for the schema that it names.
pub proof fn law_schema_link(request: RequestView, schema_path: Seq<char>)
    ensures
        url_step(request, "zed://schemas/"@ + schema_path) == taken(
            with_kind(request, KindView::BuiltinJsonSchema { schema_path }),
        ),
{
    lemma_stripped("zed://schemas/"@, schema_path);
    lemma_schema_prefix("zed://schemas/"@ + schema_path);
}

/// A settings link asks for the setting that it names, and for the settings as
/// a whole where it names none, with a slash at its end or without.
pub proof fn law_settings_link(request: RequestView, setting_path: Seq<char>)
    ensures
        url_step(request, "zed://settings"@) == taken(
            with_kind(request, KindView::Setting { setting_path: None }),
        ),
        url_step(request, "zed://settings/"@) == taken(
            with_kind(request, KindView::Setting { setting_path: None }),
        ),
        setting_path.len() > 0 ==> url_step(request, "zed://settings/"@ + setting_path) == taken(
            with_kind(request, KindView::Setting { setting_path: Some(setting_path) }),
        ),
{
    reveal_strlit("zed://settings");
    reveal_strlit("zed://settings/");
    let slash = "zed://settings/"@;
    lemma_stripped(slash, Seq::empty());
    assert(slash + Seq::<char>::empty() =~= slash);
    lemma_setting_prefix(slash);
    lemma_stripped(slash, setting_path);
    lemma_setting_prefix(slash + setting_path);
    assert("zed://settings"@ =~= slash.drop_last());
    lemma_settings_prefix();
    if setting_path.len() > 0 {
        assert((slash + setting_path).len() > slash.len());
        assert(slash + setting_path != slash);
        assert(slash + setting_path != "zed://settings"@);
    }
}

proof fn lemma_settings_prefix()
    ensures
        forall|prefix: Seq<char>|
            stripped("zed://settings/"@, prefix) is None ==> stripped(
                "zed://settings"@,
                prefix,
            ) is None,
{
    reveal_strlit("zed://settings");
    reveal_strlit("zed://settings/");
    assert forall|prefix: Seq<char>|
        stripped("zed://settings/"@, prefix) is None implies stripped(
        "zed://settings"@,
        prefix,
    ) is None by {
        if prefix.is_prefix_of("zed://settings"@) {
            assert("zed://settings"@ =~= "zed://settings/"@.subrange(0, 14));
            assert("zed://settings"@.subrange(0, prefix.len() as int)
                =~= "zed://settings/"@.subrange(0, prefix.len() as int));
            assert(prefix.is_prefix_of("zed://settings/"@));
        }
    }
}

/// A dock action that gives a number in decimal notation asks for the entry of that number.
pub proof fn law_dock_action(request: RequestView, index: nat)
    requires
        index <= usize::MAX,
    ensures
        url_step(request, "zed-dock-action://"@ + decimal(index)) == taken(
            with_kind(request, KindView::DockMenuAction { index }),
        ),
{
    lemma_stripped("zed-dock-action://"@, decimal(index));
    lemma_dock_action_prefix("zed-dock-action://"@ + decimal(index));
    law_decimal_index_reads_back(index);
}

/// A file is asked for alike by a file URL and by a file link.
pub proof fn law_file_link_is_file_url(request: RequestView, file: Seq<char>)
    ensures
        url_step(request, "zed://file"@ + file) == url_step(request, "file://"@ + file),
{
    lemma_stripped("file://"@, file);
    lemma_file_prefix("file://"@ + file);
    lemma_stripped("zed://file"@, file);
    lemma_zed_file_prefix("zed://file"@ + file);
}

/// A host is asked for alike by an SSH URL and by a link to it.
pub proof fn law_ssh_link_is_ssh_url(request: RequestView, rest: Seq<char>)
    ensures
        url_step(request, "zed://ssh/"@ + rest) == url_step(request, "ssh://"@ + rest),
{
    reveal_strlit("zed://ssh");
    reveal_strlit("zed://ssh/");
    reveal_strlit("ssh://");
    reveal_strlit("ssh:/");
    reveal_strlit("/");
    let link = "zed://ssh/"@ + rest;
    assert(link =~= "zed://ssh"@ + ("/"@ + rest));
    lemma_stripped("zed://ssh"@, "/"@ + rest);
    lemma_zed_ssh_prefix(link);
    assert("ssh:/"@ + ("/"@ + rest) =~= "ssh://"@ + rest);
    lemma_stripped("ssh://"@, rest);
    lemma_ssh_prefix("ssh://"@ + rest);
}

/// A link to clone from may have a slash before its query or not.
pub proof fn law_clone_slash_is_optional(request: RequestView, query: Seq<char>)
    ensures
        url_step(request, "zed://git/clone/?"@ + query) == url_step(
            request,
            "zed://git/clone?"@ + query,
        ),
{
    reveal_strlit("zed://git/clone");
    reveal_strlit("zed://git/clone/?");
    reveal_strlit("zed://git/clone?");
    reveal_strlit("/");
    reveal_strlit("?");
    let with_slash = "zed://git/clone/?"@ + query;
    let without = "zed://git/clone?"@ + query;
    assert(with_slash =~= "zed://git/clone"@ + ("/"@ + ("?"@ + query)));
    assert(without =~= "zed://git/clone"@ + ("?"@ + query));
    lemma_stripped("zed://git/clone"@, "/"@ + ("?"@ + query));
    lemma_stripped("zed://git/clone"@, "?"@ + query);
    lemma_clone_prefix(with_slash);
    lemma_clone_prefix(without);
    lemma_stripped("/"@, "?"@ + query);
    lemma_stripped("?"@, query);
    assert(("?"@ + query)[0] == '?');
    if "/"@.is_prefix_of("?"@ + query) {
        assert(("?"@ + query).subrange(0, 1)[0] == '/');
    }
}

/// A quirk: a link to a shared thread opens the agent panel without a prompt.
/// The prefix of such links begins with the agent's own prefix, which is tried
/// before it, so that what is meant for shared threads is never reached.
pub proof fn law_shared_thread_link_opens_agent_panel(request: RequestView, session_id: Seq<char>)
    ensures
        url_step(request, "zed://agent/shared/"@ + session_id) == taken(
            with_kind(request, KindView::AgentPanel { initial_prompt: None }),
        ),
{
    reveal_strlit("zed://agent");
    reveal_strlit("zed://agent/shared/");
    reveal_strlit("/shared/");
    reveal_strlit("?");
    let url = "zed://agent/shared/"@ + session_id;
    let path = "/shared/"@ + session_id;
    assert(url =~= "zed://agent"@ + path);
    lemma_stripped("zed://agent"@, path);
    lemma_agent_prefix(url);
    assert(path[0] == '/');
    if "?"@.is_prefix_of(path) {
        assert(path.subrange(0, 1)[0] == '?');
    }
}

/// URLs are read one after the other: reading two lists in a row is reading the
/// second with what the first has made of the request, unless the first ends
/// in an error or a question.
pub proof fn law_reading_is_sequential(
    request: RequestView,
    first: Seq<Seq<char>>,
    second: Seq<Seq<char>>,
)
    ensures
        read_urls(request, first + second) == match read_urls(request, first) {
            Ok(StepView::Done(request)) => read_urls(request, second),
            Ok(StepView::Paused { question, request, urls }) => Ok(
                StepView::Paused { question, request, urls: urls + second },
            ),
            Err(error) => Err(error),
        },
    decreases first.len(),
{
    if first.len() == 0 {
        assert(first + second =~= second);
    } else {
        assert((first + second)[0] == first[0]);
        assert((first + second).drop_first() =~= first.drop_first() + second);
        match url_step(request, first[0]) {
            Ok(step) => {
                if step.question is None {
                    law_reading_is_sequential(step.request, first.drop_first(), second);
                }
            },
            Err(_) => {},
        }
    }
}

/// Whether `later` holds all that reading never takes away from `earlier`: the
/// files to compare, the paths and the notes that were asked for.
pub open spec fn keeps(earlier: RequestView, later: RequestView) -> bool {
    &&& later.diff_paths == earlier.diff_paths
    &&& later.diff_all == earlier.diff_all
    &&& earlier.open_paths.is_prefix_of(later.open_paths)
    &&& earlier.open_channel_notes.is_prefix_of(later.open_channel_notes)
    &&& earlier.kind is Some ==> later.kind is Some
    &&& earlier.join_channel is Some ==> later.join_channel is Some
    &&& earlier.remote_connection is Some ==> later.remote_connection == earlier.remote_connection
}

/// Reading takes nothing back: files to compare stay as they are, paths and
/// notes are added behind those that are there, and a machine once chosen stays.
pub proof fn law_reading_keeps(request: RequestView, urls: Seq<Seq<char>>)
    ensures
        match read_urls(request, urls) {
            Ok(StepView::Done(later)) => keeps(request, later),
            Ok(StepView::Paused { request: later, .. }) => keeps(request, later),
            Err(_) => true,
        },
    decreases urls.len(),
{
    if urls.len() > 0 {
        match url_step(request, urls[0]) {
            Ok(step) => {
                if step.question is None {
                    law_reading_keeps(step.request, urls.drop_first());
                }
            },
            Err(_) => {},
        }
    }
}

/// An answer takes nothing back either.
pub proof fn law_answers_keep(
    request: RequestView,
    password: Option<Seq<char>>,
    path: Seq<char>,
    options: SshOptionsView,
    link: Option<ZedLink>,
    connection: Result<u64, Seq<char>>,
)
    ensures
        cli_answered(request, connection) matches Ok(step) ==> keeps(request, step.request),
        ssh_answered(request, password, path, options) matches Ok(step) ==> keeps(
            request,
            step.request,
        ),
        keeps(request, link_answered(request, link)),
{
}

/// An SSH URL that names a host is refused once a path has been asked for.
pub proof fn law_ssh_behind_path_is_refused(request: RequestView, rest: Seq<char>)
    requires
        request.open_paths.len() > 0,
        url_parts("ssh://"@ + rest) matches Ok(parts) && parts.0 is Some,
    ensures
        url_step(request, "ssh://"@ + rest) == Err::<UrlStep, ErrorView>(
            ErrorView::LocalAndSshPaths,
        ),
{
    lemma_stripped("ssh://"@, rest);
    lemma_ssh_prefix("ssh://"@ + rest);
}

/// An SSH host is refused where the request is for a distribution under Windows.
pub proof fn law_ssh_beside_wsl_is_refused(
    request: RequestView,
    wsl: WslOptionsView,
    password: Option<Seq<char>>,
    path: Seq<char>,
    options: SshOptionsView,
)
    requires
        request.remote_connection == Some(RemoteView::Wsl(wsl)),
    ensures
        ssh_answered(request, password, path, options) == Err::<UrlStep, ErrorView>(
            ErrorView::DifferentRemotes,
        ),
{
}

/// A distribution is found behind the user and `@`, or on its own; an empty
/// user is refused.
pub proof fn law_wsl_argument(user: Seq<char>, distro_name: Seq<char>)
    requires
        !user.contains('@'),
    ensures
        user.len() > 0 ==> wsl_connection(user.push('@') + distro_name) == Ok::<
            RemoteView,
            ErrorView,
        >(RemoteView::Wsl(WslOptionsView { distro_name, user: Some(user) })),
        wsl_connection(user) == Ok::<RemoteView, ErrorView>(
            RemoteView::Wsl(WslOptionsView { distro_name: user, user: None }),
        ),
        user.len() == 0 ==> wsl_connection(user.push('@') + distro_name) == Err::<
            RemoteView,
            ErrorView,
        >(ErrorView::EmptyWslUser),
{
    let wsl = user.push('@') + distro_name;
    assert(forall|j: int| 0 <= j < user.len() ==> user[j] != '@');
    assert(forall|j: int| 0 <= j < user.len() ==> wsl[j] == user[j]);
    lemma_first_position(wsl, '@', user.len() as int);
    lemma_first_position(user, '@', user.len() as int);
    assert(wsl.take(user.len() as int) =~= user);
    assert(wsl.skip(user.len() as int + 1) =~= distro_name);
}

/// Whether `text` writes `value` in a form query: as percent-escapes, or as it
/// is where it holds nothing that a form query reads otherwise.
pub open spec fn writes(text: Seq<char>, value: Seq<char>) -> bool {
    ||| text == escaped(value)
    ||| {
        &&& text == value
        &&& !text.contains('&') && !text.contains('%') && !text.contains('+')
    }
}

proof fn lemma_writes(name: Seq<char>, text: Seq<char>, value: Seq<char>)
    requires
        writes(text, value),
        value.len() > 0,
        !name.contains('&') && !name.contains('%') && !name.contains('+') && !name.contains('='),
    ensures
        value_of(form_pairs(name.push('=') + text), name) == Some(value),
{
    law_escaped_text_reads_back(value);
    if text != escaped(value) {
        law_plain_text_stands_for_itself(value);
    }
    law_plain_text_stands_for_itself(name);
    law_single_pair(name, text);
    assert(seq![(name, value)][0] == (name, value));
}

/// A file URL or a file link gives back the path: any path, where it is written
/// in percent-escapes, and one without a percent sign as it is.
pub proof fn law_file_reads_back(request: RequestView, file: Seq<char>)
    ensures
        url_step(request, "file://"@ + escaped(file)) == taken(with_path(request, file)),
        url_step(request, "zed://file"@ + escaped(file)) == taken(with_path(request, file)),
        !file.contains('%') ==> url_step(request, "file://"@ + file) == taken(
            with_path(request, file),
        ),
        !file.contains('%') ==> url_step(request, "zed://file"@ + file) == taken(
            with_path(request, file),
        ),
{
    law_escaped_text_reads_back(file);
    lemma_stripped("file://"@, escaped(file));
    lemma_file_prefix("file://"@ + escaped(file));
    law_file_link_is_file_url(request, escaped(file));
    if !file.contains('%') {
        law_plain_text_stands_for_itself(file);
        lemma_stripped("file://"@, file);
        lemma_file_prefix("file://"@ + file);
        law_file_link_is_file_url(request, file);
    }
}

/// An agent link gives back the prompt.
pub proof fn law_prompt_reads_back(request: RequestView, text: Seq<char>, prompt: Seq<char>)
    requires
        writes(text, prompt),
        prompt.len() > 0,
    ensures
        url_step(request, "zed://agent?prompt="@ + text) == taken(
            with_kind(request, KindView::AgentPanel { initial_prompt: Some(prompt) }),
        ),
{
    let query = "prompt"@.push('=') + text;
    let url = "zed://agent?prompt="@ + text;
    assert(url =~= "zed://agent"@ + ("?"@ + query)) by {
        reveal_strlit("?");
        reveal_strlit("prompt");
        reveal_strlit("zed://agent");
        reveal_strlit("zed://agent?prompt=");
    }
    lemma_stripped("zed://agent"@, "?"@ + query);
    lemma_agent_prefix(url);
    lemma_stripped("?"@, query);
    reveal_strlit("prompt");
    lemma_writes("prompt"@, text, prompt);
}

/// A link to clone from, with a slash before its query or without, gives back
/// the repository.
pub proof fn law_clone_reads_back(request: RequestView, text: Seq<char>, repo_url: Seq<char>)
    requires
        writes(text, repo_url),
        repo_url.len() > 0,
    ensures
        url_step(request, "zed://git/clone/?repo="@ + text) == taken(
            with_kind(request, KindView::GitClone { repo_url }),
        ),
        url_step(request, "zed://git/clone?repo="@ + text) == taken(
            with_kind(request, KindView::GitClone { repo_url }),
        ),
{
    let query = "repo"@.push('=') + text;
    assert("zed://git/clone/?repo="@ + text =~= "zed://git/clone/?"@ + query) by {
        reveal_strlit("repo");
        reveal_strlit("zed://git/clone/?");
        reveal_strlit("zed://git/clone/?repo=");
    }
    assert("zed://git/clone?repo="@ + text =~= "zed://git/clone?"@ + query) by {
        reveal_strlit("repo");
        reveal_strlit("zed://git/clone?");
        reveal_strlit("zed://git/clone?repo=");
    }
    law_clone_slash_is_optional(request, query);
    lemma_clone_query(request, query);
    assert(value_of(form_pairs(query), "repo"@) == Some(repo_url)) by {
        reveal_strlit("repo");
        lemma_writes("repo"@, text, repo_url);
    }
}

proof fn lemma_clone_query(request: RequestView, query: Seq<char>)
    ensures
        url_step(request, "zed://git/clone?"@ + query) == match value_of(
            form_pairs(query),
            "repo"@,
        ) {
            Some(repo_url) => taken(with_kind(request, KindView::GitClone { repo_url })),
            None => Err(ErrorView::GitCloneMissingRepo),
        },
{
    let url = "zed://git/clone?"@ + query;
    let path = "?"@ + query;
    assert(url =~= "zed://git/clone"@ + path) by {
        reveal_strlit("?");
        reveal_strlit("zed://git/clone");
        reveal_strlit("zed://git/clone?");
    }
    lemma_stripped("zed://git/clone"@, path);
    lemma_clone_prefix(url);
    lemma_stripped("?"@, query);
    assert(stripped(path, "/"@) is None) by {
        reveal_strlit("?");
        reveal_strlit("/");
        lemma_other_prefix(path, "?"@, "/"@, 0);
    }
}

/// A link to a commit gives back the commit and the path of its repository.
pub proof fn law_commit_reads_back(
    request: RequestView,
    sha: Seq<char>,
    text: Seq<char>,
    repo: Seq<char>,
)
    requires
        !sha.contains('?') && sha.len() > 0,
        writes(text, repo),
        repo.len() > 0,
    ensures
        url_step(request, "zed://git/commit/"@ + sha + "?repo="@ + text) == taken(
            with_kind(with_path(request, repo), KindView::GitCommit { sha }),
        ),
{
    let query = "repo"@.push('=') + text;
    let path = sha.push('?') + query;
    let url = "zed://git/commit/"@ + sha + "?repo="@ + text;
    assert(url =~= "zed://git/commit/"@ + path) by {
        reveal_strlit("repo");
        reveal_strlit("?repo=");
    }
    lemma_stripped("zed://git/commit/"@, path);
    lemma_commit_prefix(url);
    assert forall|j: int| 0 <= j < sha.len() implies path[j] != '?' by {
        assert(sha.contains(sha[j]));
    }
    lemma_first_position(path, '?', sha.len() as int);
    assert(path.take(sha.len() as int) =~= sha);
    assert(path.skip(sha.len() as int + 1) =~= query);
    reveal_strlit("repo");
    lemma_writes("repo"@, text, repo);
}

} // verus!
