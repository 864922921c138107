//! What every provider is given and gives back, in terms of no provider in particular.

use crate::errors::{result_view, PriestError, PriestErrorView};
use crate::lists;
use crate::schema::config::Decimal;
use crate::schema::reasoning::{ReasoningInfo, ReasoningInfoView};
use crate::schema::response::total_fits;
use crate::schema::tools::{
    ProviderToolDefinition, ToolCall, ToolCallView, ToolChoice, ToolChoiceView, ToolDefinition,
    ToolDefinitionView,
};
use vstd::prelude::*;

verus! {

/// A provider's answer.
#[derive(Debug)]
pub struct AdapterResult {
    pub text: String,
    pub finish_reason: Option<String>,
    pub input_tokens: Option<u32>,
    pub output_tokens: Option<u32>,
    /// Prompt-cache hit count. `None` when the provider omits it.
    pub cached_input_tokens: Option<u32>,
    /// Provider-reported reasoning tokens, a subset of the output tokens.
    pub reasoning_tokens: Option<u32>,
    /// Tool calls requested by the model. `None` when there are none.
    pub tool_calls: Option<Vec<ToolCall>>,
    /// Safe provider-supplied reasoning information.
    pub reasoning: Option<ReasoningInfo>,
}

/// What an `AdapterResult` holds.
pub struct AdapterResultView {
    pub text: Seq<char>,
    pub finish_reason: Option<Seq<char>>,
    pub input_tokens: Option<u32>,
    pub output_tokens: Option<u32>,
    pub cached_input_tokens: Option<u32>,
    pub reasoning_tokens: Option<u32>,
    pub tool_calls: Option<Seq<ToolCallView>>,
    pub reasoning: Option<ReasoningInfoView>,
}

impl DeepView for AdapterResult {
    type V = AdapterResultView;

    open spec fn deep_view(&self) -> AdapterResultView {
        AdapterResultView {
            text: self.text@,
            finish_reason: self.finish_reason.deep_view(),
            input_tokens: self.input_tokens,
            output_tokens: self.output_tokens,
            cached_input_tokens: self.cached_input_tokens,
            reasoning_tokens: self.reasoning_tokens,
            tool_calls: self.tool_calls.deep_view(),
            reasoning: self.reasoning.deep_view(),
        }
    }
}

/// One structured streaming event from a provider.
#[derive(Debug)]
pub enum AdapterStreamEvent {
    TextDelta { text: String },
    ReasoningSummaryDelta { text: String },
    ToolCallStart { index: usize, id: Option<String>, name: Option<String> },
    ToolCallDelta { index: usize, arguments_delta: String },
    ToolCallEnd { index: usize, tool_call: ToolCall },
    Usage {
        input_tokens: Option<u32>,
        output_tokens: Option<u32>,
        cached_input_tokens: Option<u32>,
        reasoning_tokens: Option<u32>,
    },
    Finish { finish_reason: Option<String>, reasoning: Option<ReasoningInfo> },
}

/// What an `AdapterStreamEvent` holds.
pub enum AdapterStreamEventView {
    TextDelta { text: Seq<char> },
    ReasoningSummaryDelta { text: Seq<char> },
    ToolCallStart { index: nat, id: Option<Seq<char>>, name: Option<Seq<char>> },
    ToolCallDelta { index: nat, arguments_delta: Seq<char> },
    ToolCallEnd { index: nat, tool_call: ToolCallView },
    Usage {
        input_tokens: Option<u32>,
        output_tokens: Option<u32>,
        cached_input_tokens: Option<u32>,
        reasoning_tokens: Option<u32>,
    },
    Finish { finish_reason: Option<Seq<char>>, reasoning: Option<ReasoningInfoView> },
}

impl DeepView for AdapterStreamEvent {
    type V = AdapterStreamEventView;

    open spec fn deep_view(&self) -> AdapterStreamEventView {
        match self {
            AdapterStreamEvent::TextDelta { text } => AdapterStreamEventView::TextDelta {
                text: text@,
            },
            AdapterStreamEvent::ReasoningSummaryDelta {
                text,
            } => AdapterStreamEventView::ReasoningSummaryDelta { text: text@ },
            AdapterStreamEvent::ToolCallStart {
                index,
                id,
                name,
            } => AdapterStreamEventView::ToolCallStart {
                index: *index as nat,
                id: id.deep_view(),
                name: name.deep_view(),
            },
            AdapterStreamEvent::ToolCallDelta {
                index,
                arguments_delta,
            } => AdapterStreamEventView::ToolCallDelta {
                index: *index as nat,
                arguments_delta: arguments_delta@,
            },
            AdapterStreamEvent::ToolCallEnd {
                index,
                tool_call,
            } => AdapterStreamEventView::ToolCallEnd {
                index: *index as nat,
                tool_call: tool_call.deep_view(),
            },
            AdapterStreamEvent::Usage {
                input_tokens,
                output_tokens,
                cached_input_tokens,
                reasoning_tokens,
            } => AdapterStreamEventView::Usage {
                input_tokens: *input_tokens,
                output_tokens: *output_tokens,
                cached_input_tokens: *cached_input_tokens,
                reasoning_tokens: *reasoning_tokens,
            },
            AdapterStreamEvent::Finish {
                finish_reason,
                reasoning,
            } => AdapterStreamEventView::Finish {
                finish_reason: finish_reason.deep_view(),
                reasoning: reasoning.deep_view(),
            },
        }
    }
}

/// Per-call options threaded from the engine into adapters.
#[derive(Debug)]
pub struct AdapterCallOptions {
    /// Tools that the caller executes.
    pub tools: Vec<ToolDefinition>,
    /// Tools that the provider executes.
    pub provider_tools: Vec<ProviderToolDefinition>,
    pub tool_choice: Option<ToolChoice>,
}

/// What an `AdapterCallOptions` holds.
pub struct AdapterCallOptionsView {
    pub tools: Seq<ToolDefinitionView>,
    pub provider_tools: Seq<ProviderToolDefinition>,
    pub tool_choice: Option<ToolChoiceView>,
}

impl DeepView for AdapterCallOptions {
    type V = AdapterCallOptionsView;

    open spec fn deep_view(&self) -> AdapterCallOptionsView {
        AdapterCallOptionsView {
            tools: self.tools.deep_view(),
            provider_tools: self.provider_tools.deep_view(),
            tool_choice: self.tool_choice.deep_view(),
        }
    }
}

/// The options of a call without tools.
pub open spec fn no_options() -> AdapterCallOptionsView {
    AdapterCallOptionsView {
        tools: Seq::empty(),
        provider_tools: Seq::empty(),
        tool_choice: None,
    }
}

impl Default for AdapterCallOptions {
    fn default() -> (r: Self)
        ensures
            r.deep_view() == no_options(),
    {
        let r = AdapterCallOptions {
            tools: Vec::new(),
            provider_tools: Vec::new(),
            tool_choice: None,
        };
        assert(r.tools.deep_view() =~= Seq::empty());
        assert(r.provider_tools.deep_view() =~= Seq::empty());
        r
    }
}

/// The options that hold for a call: those given, or none.
pub open spec fn options_or_none(
    options: Option<AdapterCallOptionsView>,
) -> AdapterCallOptionsView {
    match options {
        Some(o) => o,
        None => no_options(),
    }
}

// ---- Streams of text alone ----

/// An item of a text stream as a structured event.
pub open spec fn text_event(
    item: Result<Seq<char>, PriestErrorView>,
) -> Result<AdapterStreamEventView, PriestErrorView> {
    match item {
        Ok(text) => Ok(AdapterStreamEventView::TextDelta { text }),
        Err(e) => Err(e),
    }
}

/// An item of a text stream as a structured event.
pub fn wrap_text(item: Result<String, PriestError>) -> (r: Result<AdapterStreamEvent, PriestError>)
    ensures
        result_view(r) == text_event(result_view(item)),
{
    match item {
        Ok(text) => Ok(AdapterStreamEvent::TextDelta { text }),
        Err(e) => Err(e),
    }
}

/// The event that ends a stream of text alone.
pub fn text_finished() -> (r: AdapterStreamEvent)
    ensures
        r.deep_view() == (AdapterStreamEventView::Finish {
            finish_reason: Some("stop"@),
            reasoning: None,
        }),
{
    AdapterStreamEvent::Finish { finish_reason: Some("stop".to_owned()), reasoning: None }
}

/// What a structured event adds to a text stream: its text or its error, if it has one.
pub open spec fn text_in(
    event: Result<AdapterStreamEventView, PriestErrorView>,
) -> Option<Result<Seq<char>, PriestErrorView>> {
    match event {
        Ok(AdapterStreamEventView::TextDelta { text }) => Some(Ok(text)),
        Ok(_) => None,
        Err(e) => Some(Err(e)),
    }
}

/// What a structured event adds to a text stream: its text or its error, if it has one.
pub fn text_of(event: Result<AdapterStreamEvent, PriestError>) -> (r: Option<
    Result<String, PriestError>,
>)
    ensures
        match r {
            Some(item) => text_in(result_view(event)) == Some(
                result_view(item),
            ),
            None => text_in(result_view(event)) is None,
        },
{
    match event {
        Ok(AdapterStreamEvent::TextDelta { text }) => Some(Ok(text)),
        Ok(_) => None,
        Err(e) => Some(Err(e)),
    }
}

/// A text stream wrapped into events and unwrapped again is the same text stream.
pub proof fn law_wrapped_text_unwraps(item: Result<Seq<char>, PriestErrorView>)
    ensures
        text_in(text_event(item)) == Some(item),
{
}

// ---- Streams of structured events ----

/// Whether no two events tell the end of one call.
pub open spec fn ends_once(events: Seq<AdapterStreamEventView>) -> bool {
    forall|j: int, k: int|
        0 <= j < k < events.len() && #[trigger] events[j] is ToolCallEnd && #[trigger] events[k]
            is ToolCallEnd ==> events[j]->ToolCallEnd_index != events[k]->ToolCallEnd_index
}

/// Whether no event tells the end of the stream.
pub open spec fn unfinished(events: Seq<AdapterStreamEventView>) -> bool {
    forall|k: int| 0 <= k < events.len() ==> !(#[trigger] events[k] is Finish)
}

/// Whether events end with the end of the stream, tell it nowhere else, and tell the end of no call
/// twice.
pub open spec fn well_ended(events: Seq<AdapterStreamEventView>) -> bool {
    &&& events.len() > 0
    &&& events.last() is Finish
    &&& unfinished(events.drop_last())
    &&& ends_once(events)
}

/// The event that tells the usage, if there is any to tell.
pub open spec fn usage_event(
    input_tokens: Option<u32>,
    output_tokens: Option<u32>,
    cached_input_tokens: Option<u32>,
    reasoning_tokens: Option<u32>,
) -> Seq<AdapterStreamEventView> {
    if input_tokens is Some || output_tokens is Some || cached_input_tokens is Some
        || reasoning_tokens is Some {
        seq![
            AdapterStreamEventView::Usage {
                input_tokens,
                output_tokens,
                cached_input_tokens,
                reasoning_tokens,
            },
        ]
    } else {
        Seq::empty()
    }
}

/// Tells the usage, if there is any to tell.
pub fn push_usage(
    events: &mut Vec<AdapterStreamEvent>,
    input_tokens: Option<u32>,
    output_tokens: Option<u32>,
    cached_input_tokens: Option<u32>,
    reasoning_tokens: Option<u32>,
)
    ensures
        final(events).deep_view() == old(events).deep_view() + usage_event(
            input_tokens,
            output_tokens,
            cached_input_tokens,
            reasoning_tokens,
        ),
{
    let ghost before = events.deep_view();
    if input_tokens.is_some() || output_tokens.is_some() || cached_input_tokens.is_some()
        || reasoning_tokens.is_some() {
        lists::push_item(
            events,
            AdapterStreamEvent::Usage {
                input_tokens,
                output_tokens,
                cached_input_tokens,
                reasoning_tokens,
            },
        );
    }
    assert(events.deep_view() =~= before + usage_event(
        input_tokens,
        output_tokens,
        cached_input_tokens,
        reasoning_tokens,
    ));
}

// ---- What can go wrong on the way ----

/// The error for a request that got no answer: a timeout if the time ran out, else what the
/// transport said.
pub open spec fn unanswered(
    provider: Seq<char>,
    timed_out: bool,
    message: Seq<char>,
    timeout: Seq<char>,
) -> PriestErrorView {
    if timed_out {
        PriestErrorView::ProviderTimeout { provider, timeout }
    } else {
        PriestErrorView::ProviderError { provider, message }
    }
}

/// The error for a request that got no answer.
pub fn transport_error(provider: &str, timed_out: bool, message: &str, timeout: &Decimal) -> (r:
    PriestError)
    ensures
        r.deep_view() == unanswered(provider@, timed_out, message@, timeout.deep_view()),
{
    if timed_out {
        PriestError::ProviderTimeout { provider: provider.to_owned(), timeout: timeout.clone() }
    } else {
        provider_failure(provider, message)
    }
}

/// An error that a provider is to blame for.
pub fn provider_failure(provider: &str, message: &str) -> (r: PriestError)
    ensures
        r.deep_view() == (PriestErrorView::ProviderError {
            provider: provider@,
            message: message@,
        }),
{
    PriestError::ProviderError { provider: provider.to_owned(), message: message.to_owned() }
}

/// Whether an HTTP status means success.
pub open spec fn is_success(status: u16) -> bool {
    200 <= status < 300
}

/// What the status of an answer decides: success goes on, a limit on the rate of requests and any
/// other refusal are errors. The status is given as its number and as its text.
pub open spec fn status_outcome(
    provider: Seq<char>,
    status: u16,
    status_text: Seq<char>,
    retry_after: Option<Seq<char>>,
) -> Result<(), PriestErrorView> {
    if status == 429 {
        Err(PriestErrorView::ProviderRateLimited { provider, retry_after })
    } else if !is_success(status) {
        Err(PriestErrorView::ProviderError { provider, message: "HTTP "@ + status_text })
    } else {
        Ok(())
    }
}

/// What the status of an answer decides.
pub fn check_status(
    provider: &str,
    status: u16,
    status_text: &str,
    retry_after: Option<Decimal>,
) -> (r: Result<(), PriestError>)
    ensures
        result_view(r) == status_outcome(
            provider@,
            status,
            status_text@,
            retry_after.deep_view(),
        ),
{
    if status == 429 {
        Err(PriestError::ProviderRateLimited { provider: provider.to_owned(), retry_after })
    } else if status < 200 || status >= 300 {
        Err(provider_failure(provider, "HTTP ".to_owned().concat(status_text).as_str()))
    } else {
        Ok(())
    }
}

/// What the status of a stream's answer decides: success goes on, any refusal is an error.
pub open spec fn stream_status_outcome(
    provider: Seq<char>,
    status: u16,
    status_text: Seq<char>,
) -> Result<(), PriestErrorView> {
    if is_success(status) {
        Ok(())
    } else {
        Err(PriestErrorView::ProviderError { provider, message: "HTTP "@ + status_text })
    }
}

/// What the status of a stream's answer decides.
pub fn check_stream_status(provider: &str, status: u16, status_text: &str) -> (r: Result<
    (),
    PriestError,
>)
    ensures
        result_view(r) == stream_status_outcome(provider@, status, status_text@),
{
    if status < 200 || status >= 300 {
        Err(provider_failure(provider, "HTTP ".to_owned().concat(status_text).as_str()))
    } else {
        Ok(())
    }
}

impl AdapterResultView {
    /// Whether the total of the token counts can be written down.
    pub open spec fn totals_fit(self) -> bool {
        total_fits(self.input_tokens, self.output_tokens)
    }
}

} // verus!
