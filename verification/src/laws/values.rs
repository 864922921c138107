//! Laws on errors, statuses, ids and arguments.

use crate::errors::PriestErrorView;
use crate::json::{json_of_text, reads_as, unsigned_32, Json};
use crate::laws::frames::law_without_suffixes;
use crate::laws::texts::mentions;
use crate::providers::adapter::{status_outcome, stream_status_outcome, unanswered};
use crate::providers::openai_responses::response::answer_of;
use crate::providers::openai_responses::stream::streamed_answer;
use crate::providers::openai_responses::settings::OpenAIResponsesProviderView;
use crate::schema::config::{plain_config, PriestConfigView};
use crate::schema::request::plain_request;
use crate::schema::tools::{arguments_in_text, synthesized_id};
use crate::text::{decimal_text, digit, occurs_at, trimmed};
use vstd::prelude::*;

verus! {

proof fn lemma_mentions_at(s: Seq<char>, before: Seq<char>, part: Seq<char>, behind: Seq<char>)
    requires
        s == before + part + behind,
    ensures
        mentions(s, part),
{
    let at = before.len() as int;
    assert(s.subrange(at, at + part.len()) =~= part);
    assert(occurs_at(s, part, at));
}

/// What an error says holds everything that is known of it: the profile, the reason, the session,
/// the provider, the time it was waited for, the message.
pub proof fn law_errors_say_what_they_know(e: PriestErrorView)
    ensures
        match e {
            PriestErrorView::ProfileNotFound { profile } => mentions(e.message(), profile),
            PriestErrorView::ProfileInvalid { profile, reason } => mentions(e.message(), profile)
                && mentions(e.message(), reason),
            PriestErrorView::SessionNotFound { session_id } => mentions(e.message(), session_id),
            PriestErrorView::SessionStoreError { message } => mentions(e.message(), message),
            PriestErrorView::ProviderNotRegistered { provider } => mentions(
                e.message(),
                provider,
            ),
            PriestErrorView::ProviderTimeout { provider, timeout } => mentions(
                e.message(),
                provider,
            ) && mentions(e.message(), timeout),
            PriestErrorView::ProviderError { provider, message } => mentions(
                e.message(),
                provider,
            ) && mentions(e.message(), message),
            PriestErrorView::ProviderRateLimited { provider, .. } => mentions(
                e.message(),
                provider,
            ),
            PriestErrorView::RequestInvalid { message } => mentions(e.message(), message),
            PriestErrorView::RequestAborted { message } => mentions(e.message(), message),
            PriestErrorView::ImageLoadError { message } => mentions(e.message(), message),
            PriestErrorView::InternalError { message } => mentions(e.message(), message),
        },
{
    let s = e.message();
    let none = Seq::<char>::empty();
    match e {
        PriestErrorView::ProfileNotFound { profile } => {
            assert(s =~= "profile not found: "@ + profile + none);
            lemma_mentions_at(s, "profile not found: "@, profile, none);
        },
        PriestErrorView::ProfileInvalid { profile, reason } => {
            let dash = " — "@;
            assert(s =~= "profile invalid: "@ + profile + (dash + reason));
            lemma_mentions_at(s, "profile invalid: "@, profile, dash + reason);
            assert(s =~= ("profile invalid: "@ + profile + dash) + reason + none);
            lemma_mentions_at(s, "profile invalid: "@ + profile + dash, reason, none);
        },
        PriestErrorView::SessionNotFound { session_id } => {
            assert(s =~= "session not found: "@ + session_id + none);
            lemma_mentions_at(s, "session not found: "@, session_id, none);
        },
        PriestErrorView::SessionStoreError { message } => {
            assert(s =~= "session store error: "@ + message + none);
            lemma_mentions_at(s, "session store error: "@, message, none);
        },
        PriestErrorView::ProviderNotRegistered { provider } => {
            assert(s =~= "provider not registered: "@ + provider + none);
            lemma_mentions_at(s, "provider not registered: "@, provider, none);
        },
        PriestErrorView::ProviderTimeout { provider, timeout } => {
            let opening = "provider timeout: "@;
            let after = " after "@;
            assert(s =~= opening + provider + (after + timeout + "s"@));
            lemma_mentions_at(s, opening, provider, after + timeout + "s"@);
            assert(s =~= (opening + provider + after) + timeout + "s"@);
            lemma_mentions_at(s, opening + provider + after, timeout, "s"@);
        },
        PriestErrorView::ProviderError { provider, message } => {
            let opening = "provider error: "@;
            let dash = " — "@;
            assert(s =~= opening + provider + (dash + message));
            lemma_mentions_at(s, opening, provider, dash + message);
            assert(s =~= (opening + provider + dash) + message + none);
            lemma_mentions_at(s, opening + provider + dash, message, none);
        },
        PriestErrorView::ProviderRateLimited { provider, .. } => {
            assert(s =~= "provider rate limited: "@ + provider + none);
            lemma_mentions_at(s, "provider rate limited: "@, provider, none);
        },
        PriestErrorView::RequestInvalid { message } => {
            assert(s =~= "request invalid: "@ + message + none);
            lemma_mentions_at(s, "request invalid: "@, message, none);
        },
        PriestErrorView::RequestAborted { message } => {
            assert(s =~= "request aborted: "@ + message + none);
            lemma_mentions_at(s, "request aborted: "@, message, none);
        },
        PriestErrorView::ImageLoadError { message } => {
            assert(s =~= "image load error: "@ + message + none);
            lemma_mentions_at(s, "image load error: "@, message, none);
        },
        PriestErrorView::InternalError { message } => {
            assert(s =~= "internal error: "@ + message + none);
            lemma_mentions_at(s, "internal error: "@, message, none);
        },
    }
}

/// The details of an error name what it is about, each under its name, and nothing twice: the
/// profile, the session or the provider, and, where known, how long was waited or is to be waited.
pub proof fn law_details_name_what_they_are_about(e: PriestErrorView)
    ensures
        e matches PriestErrorView::ProfileNotFound { profile } ==> e.details() == seq![
            ("profile"@, profile),
        ],
        e matches PriestErrorView::ProfileInvalid { profile, .. } ==> e.details() == seq![
            ("profile"@, profile),
        ],
        e matches PriestErrorView::SessionNotFound { session_id } ==> e.details() == seq![
            ("session_id"@, session_id),
        ],
        e matches PriestErrorView::ProviderNotRegistered { provider } ==> e.details() == seq![
            ("provider"@, provider),
        ],
        e matches PriestErrorView::ProviderError { provider, .. } ==> e.details() == seq![
            ("provider"@, provider),
        ],
        e matches PriestErrorView::ProviderTimeout { provider, timeout } ==> e.details().len() == 2
            && e.details().contains(("provider"@, provider)) && e.details().contains(
            ("timeout"@, timeout),
        ),
        e matches PriestErrorView::ProviderRateLimited { provider, retry_after } ==> {
            &&& e.details().contains(("provider"@, provider))
            &&& retry_after matches Some(after) ==> e.details().len() == 2 && e.details().contains(
                ("retry_after"@, after),
            )
            &&& retry_after is None ==> e.details().len() == 1
        },
        e is SessionStoreError || e is RequestInvalid || e is RequestAborted || e is ImageLoadError
            || e is InternalError ==> e.details().len() == 0,
{
    match e {
        PriestErrorView::ProviderTimeout { provider, timeout } => {
            assert(e.details()[0] == ("provider"@, provider));
            assert(e.details()[1] == ("timeout"@, timeout));
        },
        PriestErrorView::ProviderRateLimited { provider, retry_after } => {
            assert(e.details()[0] == ("provider"@, provider));
            if let Some(after) = retry_after {
                assert(e.details()[1] == ("retry_after"@, after));
            }
        },
        _ => {},
    }
}

/// A status between 200 and 299 is a success and no other is. Being told to wait is its own error,
/// with the provider and how long to wait; any other failure is an error of the provider that says
/// the status. A stream that is refused is an error of the provider in any case.
pub proof fn law_statuses(
    provider: Seq<char>,
    status: u16,
    status_text: Seq<char>,
    retry_after: Option<Seq<char>>,
)
    ensures
        match status_outcome(provider, status, status_text, retry_after) {
            Ok(_) => 200 <= status <= 299,
            Err(e) => {
                &&& !(200 <= status <= 299)
                &&& status == 429 ==> e == (PriestErrorView::ProviderRateLimited {
                    provider,
                    retry_after,
                })
                &&& status != 429 ==> e is ProviderError && e->ProviderError_provider == provider
                    && mentions(e->ProviderError_message, status_text)
            },
        },
        match stream_status_outcome(provider, status, status_text) {
            Ok(_) => 200 <= status <= 299,
            Err(e) => !(200 <= status <= 299) && e is ProviderError && e->ProviderError_provider
                == provider && mentions(e->ProviderError_message, status_text),
        },
{
    let said = "HTTP "@ + status_text;
    assert(said =~= "HTTP "@ + status_text + Seq::empty());
    lemma_mentions_at(said, "HTTP "@, status_text, Seq::empty());
}

/// A provider that did not answer in time is told from one that could not be asked: the one error
/// says how long was waited, the other what went wrong, and both say who was asked.
pub proof fn law_no_answer(
    provider: Seq<char>,
    timed_out: bool,
    message: Seq<char>,
    timeout: Seq<char>,
)
    ensures
        timed_out ==> unanswered(provider, timed_out, message, timeout) == (
        PriestErrorView::ProviderTimeout { provider, timeout }),
        !timed_out ==> unanswered(provider, timed_out, message, timeout) == (
        PriestErrorView::ProviderError { provider, message }),
{
}

/// An answer of the responses API that comes with a failing status is an error that says the status
/// and what came with it; a body that is no JSON is an error that says why; and so is a failing
/// status of a stream.
pub proof fn law_responses_refusals(status: u16, status_text: Seq<char>, body: Seq<char>)
    ensures
        !(200 <= status <= 299) ==> {
            &&& answer_of(status, status_text, body) matches Err(e) && e is ProviderError
                && mentions(e->ProviderError_message, status_text) && mentions(
                e->ProviderError_message,
                body,
            )
            &&& streamed_answer(status, status_text, body) matches Err(e) && e is ProviderError
                && mentions(e->ProviderError_message, status_text) && mentions(
                e->ProviderError_message,
                body,
            )
        },
        200 <= status <= 299 && json_of_text(body) is Err ==> (answer_of(status, status_text, body)
            matches Err(e) && e is ProviderError && e->ProviderError_message
            == json_of_text(body)->Err_0),
        200 <= status <= 299 && json_of_text(body) is Ok ==> answer_of(status, status_text, body)
            == crate::providers::openai_responses::response::result_of(json_of_text(body)->Ok_0),
{
    let said = "HTTP "@ + status_text + ": "@ + body;
    assert(said =~= "HTTP "@ + status_text + (": "@ + body));
    lemma_mentions_at(said, "HTTP "@, status_text, ": "@ + body);
    assert(said =~= ("HTTP "@ + status_text + ": "@) + body + Seq::empty());
    lemma_mentions_at(said, "HTTP "@ + status_text + ": "@, body, Seq::empty());
}

/// A request holds the prompt and the settings that it is made with, and nothing else: no session,
/// no context, no memory, no tools and no exchange. Settings hold the provider and the model that
/// they are made with, and no limit, no budget and no options.
pub proof fn law_plain_requests(
    config: PriestConfigView,
    prompt: Seq<char>,
    provider: Seq<char>,
    model: Seq<char>,
)
    ensures
        ({
            let request = plain_request(config, prompt);
            let plain = plain_config(provider, model);
            &&& request.prompt == prompt
            &&& request.config == config
            &&& request.session is None
            &&& request.context.len() == 0
            &&& request.memory.len() == 0
            &&& request.user_context.len() == 0
            &&& request.images.len() == 0
            &&& request.metadata == Map::<Seq<char>, Json>::empty()
            &&& request.tools.len() == 0
            &&& request.provider_tools.len() == 0
            &&& request.tool_choice is None
            &&& request.tool_exchange.len() == 0
            &&& request.output.json_schema is None
            &&& request.output.provider_format is None
            &&& request.output.prompt_format is None
            &&& plain.provider == provider
            &&& plain.model == model
            &&& plain.max_output_tokens is None
            &&& plain.max_context_tokens is None
            &&& plain.max_system_chars is None
            &&& plain.compaction_keep_turns is None
            &&& plain.session_context_turns is None
            &&& plain.cost_limit is None
            &&& plain.reasoning is None
            &&& plain.provider_options == Map::<Seq<char>, Json>::empty()
        }),
{
}

/// The responses API is asked where an exact address says, or else under the base address, for
/// which a slash at its end makes no difference.
pub proof fn law_responses_endpoint(settings: OpenAIResponsesProviderView)
    ensures
        settings.exact_url matches Some(url) ==> settings.endpoint() == url,
        settings.exact_url is None ==> {
            &&& settings.endpoint() == (OpenAIResponsesProviderView {
                base_url: settings.base_url + "/"@,
                ..settings
            }).endpoint()
            &&& settings.base_url.len() > 0 && settings.base_url.last() != '/'
                ==> settings.endpoint() == settings.base_url + "/v1/responses"@
        },
{
    reveal_strlit("/");
    assert("/"@.len() == 1 && "/"@[0] == '/');
    law_without_suffixes(settings.base_url, "/"@);
    let base = settings.base_url;
    if base.len() > 0 && base.last() != '/' {
        assert(!occurs_at(base, "/"@, base.len() - 1)) by {
            if occurs_at(base, "/"@, base.len() - 1) {
                assert(base.subrange(base.len() - 1, base.len() as int)[0] == base.last());
            }
        }
    }
}

// ---- Numbers and ids ----

/// The number that decimal digits say.
pub open spec fn number_of(digits: Seq<char>) -> int
    decreases digits.len(),
{
    if digits.len() == 0 {
        0
    } else {
        10 * number_of(digits.drop_last()) + (digits.last() as int - '0' as int)
    }
}

/// A number is written in decimal digits that say it, without a nought in front.
pub proof fn law_decimal(n: nat)
    ensures
        decimal_text(n).len() > 0,
        forall|i: int|
            0 <= i < decimal_text(n).len() ==> '0' <= #[trigger] decimal_text(n)[i] <= '9',
        number_of(decimal_text(n)) == n,
        decimal_text(n).len() > 1 ==> decimal_text(n)[0] != '0',
    decreases n,
{
    let s = decimal_text(n);
    reveal_with_fuel(number_of, 2);
    if n >= 10 {
        let before = decimal_text(n / 10);
        law_decimal(n / 10);
        assert(s.drop_last() =~= before);
        assert(s[0] == before[0]);
        if before.len() == 1 {
            assert(before =~= seq![digit(n / 10)]) by {
                if n / 10 >= 10 {
                    law_decimal(n / 100);
                }
            }
        }
        assert forall|i: int| 0 <= i < s.len() implies '0' <= #[trigger] s[i] <= '9' by {
            if i < before.len() {
                assert(s[i] == before[i]);
            }
        }
    } else {
        assert(s.drop_last() =~= Seq::empty());
    }
}

/// The ids that calls are given by their places are all different.
pub proof fn law_ids_are_different(a: nat, b: nat)
    ensures
        a != b ==> synthesized_id(a) != synthesized_id(b),
        occurs_at(synthesized_id(a), "call_"@, 0),
{
    law_decimal(a);
    law_decimal(b);
    let x = synthesized_id(a);
    let y = synthesized_id(b);
    let n = "call_"@.len() as int;
    assert(x.skip(n) =~= decimal_text(a));
    assert(y.skip(n) =~= decimal_text(b));
    assert(x.subrange(0, n) =~= "call_"@);
}

/// A text that reads as an object stands for its members.
pub proof fn law_arguments_are_read(raw: Seq<char>, arguments: Map<Seq<char>, Json>)
    ensures
        reads_as(raw, Json::Object(arguments)) && trimmed(raw).len() > 0 ==> arguments_in_text(raw)
            == arguments,
        trimmed(raw).len() == 0 ==> arguments_in_text(raw) == Map::<Seq<char>, Json>::empty(),
{
}

/// A count that fits is read as it is, and what is no count is none.
pub proof fn law_counts_are_read(value: Json)
    ensures
        value matches Json::Unsigned(n) ==> unsigned_32(value) is Some && (n <= u32::MAX
            ==> unsigned_32(value)->0 == n),
        !(value is Unsigned) ==> unsigned_32(value) is None,
{
}

} // verus!
