//! The configuration of a request: which provider and model, and the limits that apply.

use super::reasoning::ReasoningConfig;
use crate::json::{object_view, Json};
use serde_json::Value;
use vstd::prelude::*;

verus! {

/// A decimal number in the form in which it is written out, such as `60` or `2.5`. The library
/// carries such numbers and writes them out; it does not calculate with them.
#[derive(Debug)]
pub struct Decimal {
    pub text: String,
}

impl DeepView for Decimal {
    type V = Seq<char>;

    open spec fn deep_view(&self) -> Seq<char> {
        self.text@
    }
}

impl Clone for Decimal {
    fn clone(&self) -> (r: Self)
        ensures
            r.deep_view() == self.deep_view(),
    {
        Decimal { text: self.text.clone() }
    }
}

#[derive(Debug)]
pub struct PriestConfig {
    pub provider: String,
    pub model: String,
    pub timeout_seconds: Decimal,
    pub max_output_tokens: Option<u32>,
    pub cost_limit: Option<Decimal>,
    pub max_system_chars: Option<usize>,
    /// Conversation compaction budget. When set, a chat turn whose reported input usage crosses 80%
    /// of this budget triggers compaction. `None` turns compaction off.
    pub max_context_tokens: Option<u32>,
    /// Most-recent turns kept verbatim when compacting.
    pub compaction_keep_turns: Option<usize>,
    /// Hard cap on how many recent session turns are replayed. 0 replays none; `None` replays all.
    pub session_context_turns: Option<usize>,
    /// What is asked of a provider that can reason.
    pub reasoning: Option<ReasoningConfig>,
    pub provider_options: serde_json::Map<String, Value>,
}

/// What a `PriestConfig` holds.
pub struct PriestConfigView {
    pub provider: Seq<char>,
    pub model: Seq<char>,
    pub timeout_seconds: Seq<char>,
    pub max_output_tokens: Option<u32>,
    pub cost_limit: Option<Seq<char>>,
    pub max_system_chars: Option<usize>,
    pub max_context_tokens: Option<u32>,
    pub compaction_keep_turns: Option<usize>,
    pub session_context_turns: Option<usize>,
    pub reasoning: Option<ReasoningConfig>,
    pub provider_options: Map<Seq<char>, Json>,
}

impl DeepView for PriestConfig {
    type V = PriestConfigView;

    open spec fn deep_view(&self) -> PriestConfigView {
        PriestConfigView {
            provider: self.provider@,
            model: self.model@,
            timeout_seconds: self.timeout_seconds.deep_view(),
            max_output_tokens: self.max_output_tokens,
            cost_limit: self.cost_limit.deep_view(),
            max_system_chars: self.max_system_chars,
            max_context_tokens: self.max_context_tokens,
            compaction_keep_turns: self.compaction_keep_turns,
            session_context_turns: self.session_context_turns,
            reasoning: self.reasoning,
            provider_options: object_view(self.provider_options),
        }
    }
}

impl Clone for PriestConfig {
    fn clone(&self) -> (r: Self)
        ensures
            r.deep_view() == self.deep_view(),
    {
        PriestConfig {
            provider: self.provider.clone(),
            model: self.model.clone(),
            timeout_seconds: self.timeout_seconds.clone(),
            max_output_tokens: self.max_output_tokens,
            cost_limit: self.cost_limit.clone(),
            max_system_chars: self.max_system_chars,
            max_context_tokens: self.max_context_tokens,
            compaction_keep_turns: self.compaction_keep_turns,
            session_context_turns: self.session_context_turns,
            reasoning: self.reasoning,
            provider_options: self.provider_options.clone(),
        }
    }
}

/// The timeout of a request that names none, in seconds.
pub fn default_timeout() -> (r: Decimal)
    ensures
        r.deep_view() == "60"@,
{
    Decimal { text: "60".to_owned() }
}

/// The configuration that sets nothing but provider and model.
pub open spec fn plain_config(provider: Seq<char>, model: Seq<char>) -> PriestConfigView {
    PriestConfigView {
        provider,
        model,
        timeout_seconds: "60"@,
        max_output_tokens: None,
        cost_limit: None,
        max_system_chars: None,
        max_context_tokens: None,
        compaction_keep_turns: None,
        session_context_turns: None,
        reasoning: None,
        provider_options: Map::empty(),
    }
}

impl PriestConfig {
    /// A configuration that sets nothing but provider and model.
    pub fn new(provider: &str, model: &str) -> (r: Self)
        ensures
            r.deep_view() == plain_config(provider@, model@),
    {
        PriestConfig {
            provider: provider.to_owned(),
            model: model.to_owned(),
            timeout_seconds: default_timeout(),
            max_output_tokens: None,
            cost_limit: None,
            max_system_chars: None,
            max_context_tokens: None,
            compaction_keep_turns: None,
            session_context_turns: None,
            reasoning: None,
            provider_options: serde_json::Map::new(),
        }
    }
}

} // verus!
