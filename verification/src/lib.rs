//! An engine for conversations with language models: it assembles the messages of a request out of
//! profile, memory, context and session, speaks to several providers, streams structured events,
//! runs tool loops, and compacts long sessions.
//!
//! Everything here is a function of plain values with a contract. What touches the world, the
//! network, files, a database, is left to the code around the library, which is told what to do
//! next and says what came of it.

pub mod clock;
pub mod compactor;
pub mod context_builder;
pub mod engine;
pub mod errors;
pub mod indexed;
pub mod json;
pub mod laws;
pub mod lists;
pub mod named;
pub mod profile;
pub mod providers;
pub mod schema;
pub mod session;
pub mod text;
pub mod tool_loop;

pub use compactor::{
    build_summary_messages, plan_compaction, should_compact, CompactionPlan,
    DEFAULT_COMPACTION_KEEP_TURNS, SUMMARY_MAX_OUTPUT_TOKENS,
};
pub use engine::{event::PriestStreamEvent, SPEC_VERSION};
pub use errors::PriestError;
pub use profile::{default_profile::built_in_default, model::Profile};
pub use providers::{
    adapter::{AdapterCallOptions, AdapterResult, AdapterStreamEvent},
    anthropic::settings::AnthropicProvider,
    ollama::OllamaProvider,
    openai_compat::OpenAICompatProvider,
    openai_responses::settings::OpenAIResponsesProvider,
};
pub use schema::{
    config::{Decimal, PriestConfig},
    reasoning::{
        OpaqueReasoningState, ReasoningConfig, ReasoningEffort, ReasoningInfo,
        ReasoningSummaryMode,
    },
    request::{ImageInput, OutputSpec, PriestRequest, SessionRef},
    response::{ExecutionInfo, PriestErrorModel, PriestResponse, SessionInfo, UsageInfo},
    tools::{
        parse_tool_arguments, ProviderToolDefinition, ToolCall, ToolChoice, ToolDefinition,
        ToolExchangeTurn,
    },
};
pub use session::{
    in_memory::InMemorySessionStore,
    model::{CompactionState, Session, Turn, COMPACTION_METADATA_KEY},
};
pub use tool_loop::{ApprovalDecision, ToolExecutionResult, ToolLoopResult};
