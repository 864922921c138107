//! A response: what the provider answered, how it was got, and what it cost.

use super::config::Decimal;
use super::reasoning::{ReasoningInfo, ReasoningInfoView};
use super::tools::{ToolCall, ToolCallView};
use crate::errors::{PriestError, PriestErrorView};
use crate::json::{object_view, Json};
use serde_json::Value;
use vstd::prelude::*;

verus! {

#[derive(Debug)]
pub struct PriestResponse {
    pub text: Option<String>,
    /// Tool calls that the caller is to execute. `None` when there are none.
    pub tool_calls: Option<Vec<ToolCall>>,
    /// Safe provider-supplied reasoning information.
    pub reasoning: Option<ReasoningInfo>,
    pub execution: ExecutionInfo,
    pub usage: Option<UsageInfo>,
    pub session: Option<SessionInfo>,
    pub error: Option<PriestErrorModel>,
    pub metadata: serde_json::Map<String, Value>,
}

/// What a `PriestResponse` holds.
pub struct PriestResponseView {
    pub text: Option<Seq<char>>,
    pub tool_calls: Option<Seq<ToolCallView>>,
    pub reasoning: Option<ReasoningInfoView>,
    pub execution: ExecutionInfoView,
    pub usage: Option<UsageInfoView>,
    pub session: Option<SessionInfoView>,
    pub error: Option<PriestErrorModelView>,
    pub metadata: Map<Seq<char>, Json>,
}

impl DeepView for PriestResponse {
    type V = PriestResponseView;

    open spec fn deep_view(&self) -> PriestResponseView {
        PriestResponseView {
            text: self.text.deep_view(),
            tool_calls: self.tool_calls.deep_view(),
            reasoning: self.reasoning.deep_view(),
            execution: self.execution.deep_view(),
            usage: self.usage.deep_view(),
            session: self.session.deep_view(),
            error: self.error.deep_view(),
            metadata: object_view(self.metadata),
        }
    }
}

impl PriestResponse {
    /// Whether the request was answered without an error.
    pub fn ok(&self) -> (r: bool)
        ensures
            r == (self.deep_view().error is None),
    {
        self.error.is_none()
    }
}

#[derive(Debug)]
pub struct ExecutionInfo {
    pub provider: String,
    pub model: String,
    pub profile: String,
    pub latency_ms: Option<i64>,
    pub finished_reason: Option<String>,
}

/// What an `ExecutionInfo` holds.
pub struct ExecutionInfoView {
    pub provider: Seq<char>,
    pub model: Seq<char>,
    pub profile: Seq<char>,
    pub latency_ms: Option<i64>,
    pub finished_reason: Option<Seq<char>>,
}

impl DeepView for ExecutionInfo {
    type V = ExecutionInfoView;

    open spec fn deep_view(&self) -> ExecutionInfoView {
        ExecutionInfoView {
            provider: self.provider@,
            model: self.model@,
            profile: self.profile@,
            latency_ms: self.latency_ms,
            finished_reason: self.finished_reason.deep_view(),
        }
    }
}

#[derive(Debug)]
pub struct UsageInfo {
    pub input_tokens: Option<u32>,
    pub output_tokens: Option<u32>,
    pub total_tokens: Option<u32>,
    /// Input tokens served from the provider's prompt cache.
    pub cached_input_tokens: Option<u32>,
    /// Output tokens spent on reasoning.
    pub reasoning_tokens: Option<u32>,
    pub estimated_cost_usd: Option<Decimal>,
}

/// What a `UsageInfo` holds.
pub struct UsageInfoView {
    pub input_tokens: Option<u32>,
    pub output_tokens: Option<u32>,
    pub total_tokens: Option<u32>,
    pub cached_input_tokens: Option<u32>,
    pub reasoning_tokens: Option<u32>,
    pub estimated_cost_usd: Option<Seq<char>>,
}

impl DeepView for UsageInfo {
    type V = UsageInfoView;

    open spec fn deep_view(&self) -> UsageInfoView {
        UsageInfoView {
            input_tokens: self.input_tokens,
            output_tokens: self.output_tokens,
            total_tokens: self.total_tokens,
            cached_input_tokens: self.cached_input_tokens,
            reasoning_tokens: self.reasoning_tokens,
            estimated_cost_usd: self.estimated_cost_usd.deep_view(),
        }
    }
}

/// Whether the total of two token counts can be written down.
pub open spec fn total_fits(input: Option<u32>, output: Option<u32>) -> bool {
    input is Some && output is Some ==> input->0 + output->0 <= u32::MAX
}

/// The usage that the given counts amount to: the total is known when both parts are.
pub open spec fn usage_of(
    input: Option<u32>,
    output: Option<u32>,
    cached: Option<u32>,
    reasoning: Option<u32>,
) -> UsageInfoView {
    UsageInfoView {
        input_tokens: input,
        output_tokens: output,
        total_tokens: match (input, output) {
            (Some(i), Some(o)) => Some((i + o) as u32),
            _ => None,
        },
        cached_input_tokens: cached,
        reasoning_tokens: reasoning,
        estimated_cost_usd: None,
    }
}

impl UsageInfo {
    /// The usage that the given counts amount to. Cached input is part of the input and reasoning
    /// part of the output, so neither adds to the total.
    pub fn new(
        input: Option<u32>,
        output: Option<u32>,
        cached: Option<u32>,
        reasoning: Option<u32>,
    ) -> (r: Self)
        requires
            total_fits(input, output),
        ensures
            r.deep_view() == usage_of(input, output, cached, reasoning),
    {
        let total = match (input, output) {
            (Some(i), Some(o)) => Some(i + o),
            _ => None,
        };
        UsageInfo {
            input_tokens: input,
            output_tokens: output,
            total_tokens: total,
            cached_input_tokens: cached,
            reasoning_tokens: reasoning,
            estimated_cost_usd: None,
        }
    }
}

#[derive(Debug)]
pub struct SessionInfo {
    pub id: String,
    pub is_new: bool,
    pub turn_count: usize,
}

/// What a `SessionInfo` holds.
pub struct SessionInfoView {
    pub id: Seq<char>,
    pub is_new: bool,
    pub turn_count: nat,
}

impl DeepView for SessionInfo {
    type V = SessionInfoView;

    open spec fn deep_view(&self) -> SessionInfoView {
        SessionInfoView {
            id: self.id@,
            is_new: self.is_new,
            turn_count: self.turn_count as nat,
        }
    }
}

/// An error as a response carries it.
#[derive(Debug)]
pub struct PriestErrorModel {
    pub code: String,
    pub message: String,
    pub details: Vec<(String, String)>,
}

/// What a `PriestErrorModel` holds.
pub struct PriestErrorModelView {
    pub code: Seq<char>,
    pub message: Seq<char>,
    pub details: Seq<(Seq<char>, Seq<char>)>,
}

impl DeepView for PriestErrorModel {
    type V = PriestErrorModelView;

    open spec fn deep_view(&self) -> PriestErrorModelView {
        PriestErrorModelView {
            code: self.code@,
            message: self.message@,
            details: self.details.deep_view(),
        }
    }
}

/// An error as a response carries it.
pub open spec fn error_model(e: PriestErrorView) -> PriestErrorModelView {
    PriestErrorModelView { code: e.code(), message: e.message(), details: e.details() }
}

impl PriestErrorModel {
    /// An error as a response carries it.
    pub fn from_priest_error(e: &PriestError) -> (r: Self)
        ensures
            r.deep_view() == error_model(e.deep_view()),
    {
        PriestErrorModel {
            code: e.code().to_owned(),
            message: e.message(),
            details: e.details(),
        }
    }
}

} // verus!
