//! The responses that requests end in.

use crate::engine::event::SummedView;
use crate::errors::{PriestError, PriestErrorView};
use crate::providers::adapter::{
    AdapterCallOptions, AdapterCallOptionsView, AdapterResult, AdapterResultView,
};
use crate::schema::reasoning::ReasoningInfo;
use crate::schema::request::{PriestRequest, PriestRequestView};
use crate::schema::response::{
    error_model, usage_of, ExecutionInfo, ExecutionInfoView, PriestErrorModel, PriestResponse,
    PriestResponseView, SessionInfo, SessionInfoView, UsageInfo,
};
use crate::schema::tools::{ToolCall, ToolCallView};
use crate::session::model::{Session, SessionView};
use vstd::prelude::*;

verus! {

/// The options of the call that a request leads to: none where it has no tools.
pub open spec fn options_of(request: PriestRequestView) -> Option<AdapterCallOptionsView> {
    if request.tools.len() == 0 && request.provider_tools.len() == 0 {
        None
    } else {
        Some(
            AdapterCallOptionsView {
                tools: request.tools,
                provider_tools: request.provider_tools,
                tool_choice: request.tool_choice,
            },
        )
    }
}

/// The options of the call that a request leads to.
pub fn call_options(request: &PriestRequest) -> (r: Option<AdapterCallOptions>)
    ensures
        r.deep_view() == options_of(request.deep_view()),
{
    if request.tools.len() == 0 && request.provider_tools.len() == 0 {
        return None;
    }
    let options = AdapterCallOptions {
        tools: request.tools.clone(),
        provider_tools: request.provider_tools.clone(),
        tool_choice: request.tool_choice.clone(),
    };
    assert(options.tools.deep_view() =~= request.tools.deep_view());
    assert(options.provider_tools.deep_view() =~= request.provider_tools.deep_view());
    Some(options)
}

/// How a request was executed.
pub open spec fn execution_of(
    request: PriestRequestView,
    latency_ms: Option<i64>,
    reason: Option<Seq<char>>,
) -> ExecutionInfoView {
    ExecutionInfoView {
        provider: request.config.provider,
        model: request.config.model,
        profile: request.profile,
        latency_ms,
        finished_reason: reason,
    }
}

fn write_execution(request: &PriestRequest, latency_ms: Option<i64>, reason: Option<String>) -> (r:
    ExecutionInfo)
    ensures
        r.deep_view() == execution_of(request.deep_view(), latency_ms, reason.deep_view()),
{
    ExecutionInfo {
        provider: request.config.provider.clone(),
        model: request.config.model.clone(),
        profile: request.profile.clone(),
        latency_ms,
        finished_reason: reason,
    }
}

/// What a response tells of its session.
pub open spec fn info_of(session: SessionView, is_new: bool) -> SessionInfoView {
    SessionInfoView { id: session.id, is_new, turn_count: session.turns.len() }
}

/// What a response tells of its session.
pub fn session_info(session: &Session, is_new: bool) -> (r: SessionInfo)
    ensures
        r.deep_view() == info_of(session.deep_view(), is_new),
{
    SessionInfo { id: session.id.clone(), is_new, turn_count: session.turns.len() }
}

/// The response to a request that failed at the provider.
pub open spec fn failed_response(
    request: PriestRequestView,
    error: PriestErrorView,
    latency_ms: Option<i64>,
) -> PriestResponseView {
    PriestResponseView {
        text: None,
        tool_calls: None,
        reasoning: None,
        execution: execution_of(request, latency_ms, Some("error"@)),
        usage: None,
        session: None,
        error: Some(error_model(error)),
        metadata: request.metadata,
    }
}

/// The response to a request that failed at the provider.
pub fn write_failed_response(
    request: &PriestRequest,
    error: &PriestError,
    latency_ms: Option<i64>,
) -> (r: PriestResponse)
    ensures
        r.deep_view() == failed_response(request.deep_view(), error.deep_view(), latency_ms),
{
    PriestResponse {
        text: None,
        tool_calls: None,
        reasoning: None,
        execution: write_execution(request, latency_ms, Some("error".to_owned())),
        usage: None,
        session: None,
        error: Some(PriestErrorModel::from_priest_error(error)),
        metadata: request.metadata.clone(),
    }
}

/// The tool calls that the caller has to execute, if there are any.
pub open spec fn pending_calls(calls: Option<Seq<ToolCallView>>) -> Option<Seq<ToolCallView>> {
    match calls {
        Some(c) if c.len() > 0 => Some(c),
        _ => None,
    }
}

/// The tool calls that the caller has to execute, if there are any.
pub fn keep_pending(calls: Option<Vec<ToolCall>>) -> (r: Option<Vec<ToolCall>>)
    ensures
        r.deep_view() == pending_calls(calls.deep_view()),
{
    match calls {
        Some(c) => if c.len() > 0 {
            Some(c)
        } else {
            None
        },
        None => None,
    }
}

/// The response to a request that the provider answered.
pub open spec fn answered_response(
    request: PriestRequestView,
    result: AdapterResultView,
    latency_ms: i64,
    session: Option<SessionInfoView>,
) -> PriestResponseView {
    let calls = pending_calls(result.tool_calls);
    PriestResponseView {
        text: Some(result.text),
        tool_calls: calls,
        reasoning: result.reasoning,
        execution: execution_of(
            request,
            Some(latency_ms),
            if calls is Some {
                Some("tool_calls"@)
            } else {
                result.finish_reason
            },
        ),
        usage: Some(
            usage_of(
                result.input_tokens,
                result.output_tokens,
                result.cached_input_tokens,
                result.reasoning_tokens,
            ),
        ),
        session,
        error: None,
        metadata: request.metadata,
    }
}

/// The response to a request that the provider answered.
pub fn write_answered_response(
    request: &PriestRequest,
    result: AdapterResult,
    latency_ms: i64,
    session: Option<SessionInfo>,
) -> (r: PriestResponse)
    requires
        result.deep_view().totals_fit(),
    ensures
        r.deep_view() == answered_response(
            request.deep_view(),
            result.deep_view(),
            latency_ms,
            session.deep_view(),
        ),
{
    let usage = UsageInfo::new(
        result.input_tokens,
        result.output_tokens,
        result.cached_input_tokens,
        result.reasoning_tokens,
    );
    let calls = keep_pending(result.tool_calls);
    let reason = if calls.is_some() {
        Some("tool_calls".to_owned())
    } else {
        result.finish_reason
    };
    PriestResponse {
        text: Some(result.text),
        tool_calls: calls,
        reasoning: result.reasoning,
        execution: write_execution(request, Some(latency_ms), reason),
        usage: Some(usage),
        session,
        error: None,
        metadata: request.metadata.clone(),
    }
}

/// The text of a stream: none where there was no piece of text.
pub open spec fn streamed_text(texts: Seq<Seq<char>>) -> Option<Seq<char>> {
    if texts.len() == 0 {
        None
    } else {
        Some(crate::text::joined(texts, ""@))
    }
}

/// Why a stream ended: an error, tool calls, what the provider said, or else that it stopped.
pub open spec fn streamed_reason(sum: SummedView, error: Option<PriestErrorView>) -> Seq<char> {
    if error is Some {
        "error"@
    } else if sum.tool_calls.len() > 0 {
        "tool_calls"@
    } else {
        match sum.finish_reason {
            Some(reason) => reason,
            None => "stop"@,
        }
    }
}

/// The response that a stream ends in. What came before an error is kept.
pub open spec fn streamed_response(
    request: PriestRequestView,
    sum: SummedView,
    error: Option<PriestErrorView>,
    latency_ms: i64,
    session: Option<SessionInfoView>,
) -> PriestResponseView {
    PriestResponseView {
        text: streamed_text(sum.texts),
        tool_calls: pending_calls(Some(sum.tool_calls)),
        reasoning: sum.reasoning,
        execution: execution_of(request, Some(latency_ms), Some(streamed_reason(sum, error))),
        usage: sum.usage,
        session,
        error: match error {
            Some(e) => Some(error_model(e)),
            None => None,
        },
        metadata: request.metadata,
    }
}

/// The response that a stream ends in.
pub fn write_streamed_response(
    request: &PriestRequest,
    text: Option<String>,
    tool_calls: Vec<ToolCall>,
    usage: Option<UsageInfo>,
    finish_reason: Option<String>,
    reasoning: Option<ReasoningInfo>,
    error: &Option<PriestError>,
    latency_ms: i64,
    session: Option<SessionInfo>,
) -> (r: PriestResponse)
    ensures
        forall|sum: SummedView|
            streamed_text(sum.texts) == text.deep_view() && sum.tool_calls
                == tool_calls.deep_view() && sum.usage == usage.deep_view() && sum.finish_reason
                == finish_reason.deep_view() && sum.reasoning == reasoning.deep_view()
                ==> r.deep_view() == #[trigger] streamed_response(
                request.deep_view(),
                sum,
                error.deep_view(),
                latency_ms,
                session.deep_view(),
            ),
{
    let reason = match error {
        Some(_) => "error".to_owned(),
        None => if tool_calls.len() > 0 {
            "tool_calls".to_owned()
        } else {
            match finish_reason {
                Some(reason) => reason,
                None => "stop".to_owned(),
            }
        },
    };
    let error_info = match error {
        Some(e) => Some(PriestErrorModel::from_priest_error(e)),
        None => None,
    };
    PriestResponse {
        text,
        tool_calls: keep_pending(Some(tool_calls)),
        reasoning,
        execution: write_execution(request, Some(latency_ms), Some(reason)),
        usage,
        session,
        error: error_info,
        metadata: request.metadata.clone(),
    }
}

} // verus!
