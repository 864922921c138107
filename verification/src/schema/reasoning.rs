//! Provider-neutral reasoning: what a request may ask for, and what a provider may answer.

use crate::json::{json_view, Json};
use serde_json::Value;
use vstd::prelude::*;

verus! {

/// Provider-neutral reasoning effort. Support is provider- and model-specific.
#[derive(Clone, Copy, Debug, PartialEq, Eq, Structural)]
pub enum ReasoningEffort {
    Off,
    Minimal,
    Low,
    Medium,
    High,
    XHigh,
    Max,
}

impl ReasoningEffort {
    /// The effort's name on the wire.
    pub open spec fn name(self) -> Seq<char> {
        match self {
            ReasoningEffort::Off => "none"@,
            ReasoningEffort::Minimal => "minimal"@,
            ReasoningEffort::Low => "low"@,
            ReasoningEffort::Medium => "medium"@,
            ReasoningEffort::High => "high"@,
            ReasoningEffort::XHigh => "xhigh"@,
            ReasoningEffort::Max => "max"@,
        }
    }

    /// The effort's name on the wire.
    pub fn as_str(self) -> (r: &'static str)
        ensures
            r@ == self.name(),
    {
        match self {
            ReasoningEffort::Off => "none",
            ReasoningEffort::Minimal => "minimal",
            ReasoningEffort::Low => "low",
            ReasoningEffort::Medium => "medium",
            ReasoningEffort::High => "high",
            ReasoningEffort::XHigh => "xhigh",
            ReasoningEffort::Max => "max",
        }
    }
}

/// No two efforts have the same name.
pub proof fn law_effort_names_are_distinct(a: ReasoningEffort, b: ReasoningEffort)
    ensures
        a.name() == b.name() <==> a == b,
{
    reveal_strlit("none");
    reveal_strlit("minimal");
    reveal_strlit("low");
    reveal_strlit("medium");
    reveal_strlit("high");
    reveal_strlit("xhigh");
    reveal_strlit("max");
    if a.name() == b.name() && a != b {
        assert(a.name().len() == b.name().len() && a.name()[0] == b.name()[0] && a.name().last()
            == b.name().last());
    }
}

/// Requested provider behavior for displayable reasoning summaries.
#[derive(Clone, Copy, Debug, PartialEq, Eq, Structural)]
pub enum ReasoningSummaryMode {
    Off,
    Auto,
}

/// Optional provider-neutral reasoning request.
#[derive(Clone, Copy, Debug, PartialEq, Eq)]
pub struct ReasoningConfig {
    pub enabled: Option<bool>,
    pub effort: Option<ReasoningEffort>,
    pub summary: Option<ReasoningSummaryMode>,
}

/// Provider-owned state, replayed unchanged and only to an adapter that knows its format.
#[derive(Debug)]
pub struct OpaqueReasoningState {
    pub format: String,
    pub value: Value,
}

/// What an `OpaqueReasoningState` holds.
pub struct OpaqueReasoningStateView {
    pub format: Seq<char>,
    pub value: Json,
}

impl DeepView for OpaqueReasoningState {
    type V = OpaqueReasoningStateView;

    open spec fn deep_view(&self) -> OpaqueReasoningStateView {
        OpaqueReasoningStateView { format: self.format@, value: json_view(self.value) }
    }
}

impl Clone for OpaqueReasoningState {
    fn clone(&self) -> (r: Self)
        ensures
            r.deep_view() == self.deep_view(),
    {
        OpaqueReasoningState { format: self.format.clone(), value: self.value.clone() }
    }
}

/// Safe provider-supplied reasoning information.
#[derive(Debug)]
pub struct ReasoningInfo {
    pub summary: Option<String>,
    pub continuation: Option<Vec<OpaqueReasoningState>>,
}

/// What a `ReasoningInfo` holds.
pub struct ReasoningInfoView {
    pub summary: Option<Seq<char>>,
    pub continuation: Option<Seq<OpaqueReasoningStateView>>,
}

impl DeepView for ReasoningInfo {
    type V = ReasoningInfoView;

    open spec fn deep_view(&self) -> ReasoningInfoView {
        ReasoningInfoView {
            summary: self.summary.deep_view(),
            continuation: self.continuation.deep_view(),
        }
    }
}

impl Clone for ReasoningInfo {
    fn clone(&self) -> (r: Self)
        ensures
            r.deep_view() == self.deep_view(),
    {
        let r = ReasoningInfo {
            summary: self.summary.clone(),
            continuation: self.continuation.clone(),
        };
        assert(r.continuation.deep_view() == self.continuation.deep_view()) by {
            if self.continuation is Some {
                assert(r.continuation->0.deep_view() =~= self.continuation->0.deep_view());
            }
        }
        r
    }
}

} // verus!
