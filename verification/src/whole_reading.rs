//! Reading a request from its first URL to its last, with every question
//! answered on the way.
use crate::open_request::{empty_request, ErrorView, KindView, RawOpenRequest, RequestView};
use crate::parse::{
    asked, cli_answered, goes_on_with, initial_request, link_answered, read_request, read_urls,
    ssh_answered, taken, url_step, QuestionView, StepView, UrlStep, ZedLink,
};
use crate::parse_laws::{
    law_clone_slash_is_optional, law_file_link_is_file_url, law_ssh_link_is_ssh_url,
};
use crate::remote::SshOptionsView;
use crate::text::strings_view;
use vstd::prelude::*;

verus! {

/// What the editor answers to the questions that a URL may raise.
pub struct Answers {
    pub connection: Result<u64, Seq<char>>,
    pub options: SshOptionsView,
    pub link: Option<ZedLink>,
}

/// What a URL amounts to once its question is answered, or once it is noted.
pub open spec fn question_step(
    request: RequestView,
    question: QuestionView,
    answers: Answers,
) -> Result<UrlStep, ErrorView> {
    match question {
        QuestionView::ConnectToCli { .. } => cli_answered(request, answers.connection),
        QuestionView::SshOptions { password, path, .. } => ssh_answered(
            request,
            password,
            path,
            answers.options,
        ),
        QuestionView::ZedLink { .. } => taken(link_answered(request, answers.link)),
        QuestionView::PassedOver(_) => taken(request),
    }
}

/// The request once the question that is left open is answered.
pub open spec fn question_answered(step: UrlStep, answers: Answers) -> Result<
    RequestView,
    ErrorView,
> {
    match step.question {
        Some(question) => match question_step(step.request, question, answers) {
            Ok(answered) => Ok(answered.request),
            Err(error) => Err(error),
        },
        None => Ok(step.request),
    }
}

/// What a URL makes of a request in the end.
pub open spec fn url_read(request: RequestView, url: Seq<char>, answers: Answers) -> Result<
    RequestView,
    ErrorView,
> {
    match url_step(request, url) {
        Ok(step) => question_answered(step, answers),
        Err(error) => Err(error),
    }
}

/// What `urls` make of a request in the end, each with its answers.
pub open spec fn whole_reading(
    request: RequestView,
    urls: Seq<Seq<char>>,
    answers: Seq<Answers>,
) -> Result<RequestView, ErrorView>
    decreases urls.len(),
{
    if urls.len() == 0 {
        Ok(request)
    } else {
        match url_read(request, urls[0], answers[0]) {
            Ok(next) => whole_reading(next, urls.drop_first(), answers.drop_first()),
            Err(error) => Err(error),
        }
    }
}

/// What a request comes to in the end.
pub open spec fn whole_request(raw: RawOpenRequest, answers: Seq<Answers>) -> Result<
    RequestView,
    ErrorView,
> {
    match initial_request(raw) {
        Ok(request) => whole_reading(request, strings_view(raw.urls@), answers),
        Err(error) => Err(error),
    }
}

/// What a step comes to in the end. `answers` ends with those of the URLs that
/// remain, and those of the URL that is paused at stand right before them.
pub open spec fn comes_to(step: Result<StepView, ErrorView>, answers: Seq<Answers>) -> Result<
    RequestView,
    ErrorView,
> {
    match step {
        Err(error) => Err(error),
        Ok(StepView::Done(request)) => Ok(request),
        Ok(StepView::Paused { question, request, urls }) => {
            let read = answers.len() - urls.len();
            match question_answered(
                UrlStep { request, question: Some(question) },
                answers[read - 1],
            ) {
                Ok(next) => whole_reading(next, urls, answers.skip(read)),
                Err(error) => Err(error),
            }
        },
    }
}

/// Reading step by step comes to what reading as a whole comes to: where a step
/// pauses, the answer to its question and then the remaining URLs make up the rest.
pub proof fn law_steps_make_the_whole(
    request: RequestView,
    urls: Seq<Seq<char>>,
    answers: Seq<Answers>,
)
    requires
        answers.len() == urls.len(),
    ensures
        comes_to(read_urls(request, urls), answers) == whole_reading(request, urls, answers),
        read_urls(request, urls) matches Ok(StepView::Paused { urls: rest, .. }) ==> rest.len()
            < urls.len() && rest == urls.skip(urls.len() - rest.len()),
    decreases urls.len(),
{
    if urls.len() > 0 {
        match url_step(request, urls[0]) {
            Ok(step) => {
                if step.question is None {
                    law_steps_make_the_whole(
                        step.request,
                        urls.drop_first(),
                        answers.drop_first(),
                    );
                    lemma_earlier_answers(
                        read_urls(step.request, urls.drop_first()),
                        answers,
                        urls.drop_first(),
                    );
                    match read_urls(step.request, urls.drop_first()) {
                        Ok(StepView::Paused { urls: rest, .. }) => {
                            let read = urls.len() - rest.len();
                            assert(urls.drop_first().skip(read - 1) =~= urls.skip(read));
                        },
                        _ => {},
                    }
                } else {
                    assert(urls.drop_first() =~= urls.skip(1));
                    assert(answers.drop_first() =~= answers.skip(1));
                }
            },
            Err(_) => {},
        }
    }
}

proof fn lemma_earlier_answers(
    step: Result<StepView, ErrorView>,
    answers: Seq<Answers>,
    urls: Seq<Seq<char>>,
)
    requires
        answers.len() == urls.len() + 1,
        step matches Ok(StepView::Paused { urls: rest, .. }) ==> rest.len() < urls.len(),
    ensures
        comes_to(step, answers) == comes_to(step, answers.drop_first()),
{
    match step {
        Ok(StepView::Paused { urls: rest, .. }) => {
            let read = answers.len() - rest.len();
            assert(answers.drop_first().skip(read - 1) =~= answers.skip(read));
            assert(answers.drop_first()[read - 2] == answers[read - 1]);
        },
        _ => {},
    }
}

/// A request that is read step by step comes to what it comes to as a whole.
pub proof fn law_steps_make_the_whole_request(raw: RawOpenRequest, answers: Seq<Answers>)
    requires
        answers.len() == raw.urls@.len(),
    ensures
        comes_to(read_request(raw), answers) == whole_request(raw, answers),
{
    match initial_request(raw) {
        Ok(request) => law_steps_make_the_whole(request, strings_view(raw.urls@), answers),
        Err(_) => {},
    }
}

/// What follows an answered question comes to the answered request read on with
/// the remaining URLs, also where reading pauses again to have something noted.
/// `answers` begins with those of the URL that raised the question.
pub proof fn law_answers_make_the_whole(
    request: RequestView,
    question: QuestionView,
    urls: Seq<Seq<char>>,
    answers: Seq<Answers>,
)
    requires
        answers.len() == urls.len() + 1,
    ensures
        comes_to(goes_on_with(question_step(request, question, answers[0]), urls), answers)
            == match question_answered(
            UrlStep { request, question: Some(question) },
            answers[0],
        ) {
            Ok(next) => whole_reading(next, urls, answers.drop_first()),
            Err(error) => Err(error),
        },
        comes_to(goes_on_with(question_step(request, question, answers[0]), urls), answers)
            == comes_to(Ok(StepView::Paused { question, request, urls }), answers),
{
    assert(answers.drop_first() =~= answers.skip(1));
    match question_step(request, question, answers[0]) {
        Ok(answered) => match answered.question {
            None => {
                law_steps_make_the_whole(answered.request, urls, answers.drop_first());
                lemma_earlier_answers(read_urls(answered.request, urls), answers, urls);
            },
            Some(noted) => {
                assert(noted is PassedOver);
            },
        },
        Err(_) => {},
    }
}

/// What a URL asks for besides paths, if anything.
pub open spec fn kind_set(url: Seq<char>, answers: Answers) -> Option<KindView> {
    match url_read(empty_request(), url, answers) {
        Ok(request) => request.kind,
        Err(_) => None,
    }
}

proof fn lemma_kind_set(request: RequestView, url: Seq<char>, answers: Answers)
    ensures
        url_read(request, url, answers) matches Ok(later) ==> later.kind == match kind_set(
            url,
            answers,
        ) {
            Some(kind) => Some(kind),
            None => request.kind,
        },
{
}

/// Where no URL asks for something besides paths, what is asked for stays.
pub proof fn law_no_kind_keeps_the_kind(
    request: RequestView,
    urls: Seq<Seq<char>>,
    answers: Seq<Answers>,
    later: RequestView,
)
    requires
        answers.len() == urls.len(),
        whole_reading(request, urls, answers) == Ok::<RequestView, ErrorView>(later),
        forall|j: int| 0 <= j < urls.len() ==> kind_set(#[trigger] urls[j], answers[j]) is None,
    ensures
        later.kind == request.kind,
    decreases urls.len(),
{
    if urls.len() > 0 {
        lemma_kind_set(request, urls[0], answers[0]);
        let next = url_read(request, urls[0], answers[0])->Ok_0;
        assert forall|j: int| 0 <= j < urls.drop_first().len() implies kind_set(
            #[trigger] urls.drop_first()[j],
            answers.drop_first()[j],
        ) is None by {
            assert(kind_set(urls[j + 1], answers[j + 1]) is None);
        }
        law_no_kind_keeps_the_kind(next, urls.drop_first(), answers.drop_first(), later);
    }
}

/// The last URL that asks for something besides paths decides what is asked for.
pub proof fn law_last_kind_decides(
    request: RequestView,
    urls: Seq<Seq<char>>,
    answers: Seq<Answers>,
    later: RequestView,
    last: int,
)
    requires
        answers.len() == urls.len(),
        whole_reading(request, urls, answers) == Ok::<RequestView, ErrorView>(later),
        0 <= last < urls.len(),
        kind_set(urls[last], answers[last]) is Some,
        forall|j: int|
            last < j < urls.len() ==> kind_set(#[trigger] urls[j], answers[j]) is None,
    ensures
        later.kind == kind_set(urls[last], answers[last]),
    decreases urls.len(),
{
    lemma_kind_set(request, urls[0], answers[0]);
    let next = url_read(request, urls[0], answers[0])->Ok_0;
    let rest = urls.drop_first();
    let rest_answers = answers.drop_first();
    assert forall|j: int| last - 1 < j < rest.len() && 0 <= j implies kind_set(
        #[trigger] rest[j],
        rest_answers[j],
    ) is None by {
        assert(kind_set(urls[j + 1], answers[j + 1]) is None);
    }
    if last == 0 {
        law_no_kind_keeps_the_kind(next, rest, rest_answers, later);
    } else {
        assert(rest[last - 1] == urls[last]);
        law_last_kind_decides(next, rest, rest_answers, later, last - 1);
    }
}

proof fn lemma_same_step_anywhere(
    request: RequestView,
    urls: Seq<Seq<char>>,
    answers: Seq<Answers>,
    i: int,
    a: Seq<char>,
    b: Seq<char>,
)
    requires
        answers.len() == urls.len(),
        0 <= i < urls.len(),
        forall|r: RequestView| #[trigger] url_step(r, a) == url_step(r, b),
    ensures
        whole_reading(request, urls.update(i, a), answers) == whole_reading(
            request,
            urls.update(i, b),
            answers,
        ),
    decreases urls.len(),
{
    let with_a = urls.update(i, a);
    let with_b = urls.update(i, b);
    if i == 0 {
        assert(url_step(request, a) == url_step(request, b));
        assert(with_a.drop_first() =~= with_b.drop_first());
    } else {
        assert(with_a.drop_first() =~= urls.drop_first().update(i - 1, a));
        assert(with_b.drop_first() =~= urls.drop_first().update(i - 1, b));
        match url_read(request, urls[0], answers[0]) {
            Ok(next) => lemma_same_step_anywhere(
                next,
                urls.drop_first(),
                answers.drop_first(),
                i - 1,
                a,
                b,
            ),
            Err(_) => {},
        }
    }
}

/// A host is asked for alike by an SSH URL and by a link to it, wherever in a
/// request it stands.
pub proof fn law_ssh_link_is_ssh_url_anywhere(
    request: RequestView,
    urls: Seq<Seq<char>>,
    answers: Seq<Answers>,
    i: int,
    rest: Seq<char>,
)
    requires
        answers.len() == urls.len(),
        0 <= i < urls.len(),
    ensures
        whole_reading(request, urls.update(i, "zed://ssh/"@ + rest), answers) == whole_reading(
            request,
            urls.update(i, "ssh://"@ + rest),
            answers,
        ),
{
    assert forall|r: RequestView| #[trigger]
        url_step(r, "zed://ssh/"@ + rest) == url_step(r, "ssh://"@ + rest) by {
        law_ssh_link_is_ssh_url(r, rest);
    }
    lemma_same_step_anywhere(
        request,
        urls,
        answers,
        i,
        "zed://ssh/"@ + rest,
        "ssh://"@ + rest,
    );
}

/// A file is asked for alike by a file URL and by a file link, wherever in a
/// request it stands.
pub proof fn law_file_link_is_file_url_anywhere(
    request: RequestView,
    urls: Seq<Seq<char>>,
    answers: Seq<Answers>,
    i: int,
    file: Seq<char>,
)
    requires
        answers.len() == urls.len(),
        0 <= i < urls.len(),
    ensures
        whole_reading(request, urls.update(i, "zed://file"@ + file), answers) == whole_reading(
            request,
            urls.update(i, "file://"@ + file),
            answers,
        ),
{
    assert forall|r: RequestView| #[trigger]
        url_step(r, "zed://file"@ + file) == url_step(r, "file://"@ + file) by {
        law_file_link_is_file_url(r, file);
    }
    lemma_same_step_anywhere(request, urls, answers, i, "zed://file"@ + file, "file://"@ + file);
}

/// A link to clone from may have a slash before its query or not, wherever in a
/// request it stands.
pub proof fn law_clone_slash_is_optional_anywhere(
    request: RequestView,
    urls: Seq<Seq<char>>,
    answers: Seq<Answers>,
    i: int,
    query: Seq<char>,
)
    requires
        answers.len() == urls.len(),
        0 <= i < urls.len(),
    ensures
        whole_reading(request, urls.update(i, "zed://git/clone/?"@ + query), answers)
            == whole_reading(request, urls.update(i, "zed://git/clone?"@ + query), answers),
{
    assert forall|r: RequestView| #[trigger]
        url_step(r, "zed://git/clone/?"@ + query) == url_step(r, "zed://git/clone?"@ + query) by {
        law_clone_slash_is_optional(r, query);
    }
    lemma_same_step_anywhere(
        request,
        urls,
        answers,
        i,
        "zed://git/clone/?"@ + query,
        "zed://git/clone?"@ + query,
    );
}

/// Whether `url` is one that only the collaboration server may know.
pub open spec fn is_left_to_server(url: Seq<char>) -> bool {
    url_step(empty_request(), url) == asked(empty_request(), QuestionView::ZedLink { url })
}

proof fn lemma_left_to_server(request: RequestView, url: Seq<char>)
    requires
        is_left_to_server(url),
    ensures
        url_step(request, url) == asked(request, QuestionView::ZedLink { url }),
{
}

/// A URL that nothing handles changes nothing, wherever it stands: the request
/// comes out as without it.
pub proof fn law_unhandled_url_changes_nothing(
    request: RequestView,
    urls: Seq<Seq<char>>,
    answers: Seq<Answers>,
    i: int,
)
    requires
        answers.len() == urls.len(),
        0 <= i < urls.len(),
        is_left_to_server(urls[i]),
        answers[i].link is None,
    ensures
        whole_reading(request, urls, answers) == whole_reading(
            request,
            urls.remove(i),
            answers.remove(i),
        ),
    decreases urls.len(),
{
    if i == 0 {
        lemma_left_to_server(request, urls[0]);
        assert(urls.remove(0) =~= urls.drop_first());
        assert(answers.remove(0) =~= answers.drop_first());
    } else {
        assert(urls.remove(i).drop_first() =~= urls.drop_first().remove(i - 1));
        assert(answers.remove(i).drop_first() =~= answers.drop_first().remove(i - 1));
        match url_read(request, urls[0], answers[0]) {
            Ok(next) => {
                law_unhandled_url_changes_nothing(
                    next,
                    urls.drop_first(),
                    answers.drop_first(),
                    i - 1,
                );
            },
            Err(_) => {},
        }
    }
}

} // verus!
