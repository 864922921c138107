//! A request: the prompt, and all that shapes the messages that go with it.

use super::config::{PriestConfig, PriestConfigView};
use super::tools::{
    ProviderToolDefinition, ToolChoice, ToolChoiceView, ToolDefinition, ToolDefinitionView,
    ToolExchangeTurn, ToolExchangeTurnView,
};
use crate::json::{object_view, optional_view, Json};
use serde_json::Value;
use vstd::prelude::*;

verus! {

#[derive(Debug)]
pub struct PriestRequest {
    pub config: PriestConfig,
    pub profile: String,
    pub prompt: String,
    pub session: Option<SessionRef>,
    pub context: Vec<String>,
    pub memory: Vec<String>,
    pub user_context: Vec<String>,
    pub images: Vec<ImageInput>,
    pub output: OutputSpec,
    pub metadata: serde_json::Map<String, Value>,
    /// Tools that the caller executes.
    pub tools: Vec<ToolDefinition>,
    /// Tools that the provider executes.
    pub provider_tools: Vec<ProviderToolDefinition>,
    pub tool_choice: Option<ToolChoice>,
    /// The tool loop's history within this turn.
    pub tool_exchange: Vec<ToolExchangeTurn>,
}

/// What a `PriestRequest` holds.
pub struct PriestRequestView {
    pub config: PriestConfigView,
    pub profile: Seq<char>,
    pub prompt: Seq<char>,
    pub session: Option<SessionRefView>,
    pub context: Seq<Seq<char>>,
    pub memory: Seq<Seq<char>>,
    pub user_context: Seq<Seq<char>>,
    pub images: Seq<ImageInputView>,
    pub output: OutputSpecView,
    pub metadata: Map<Seq<char>, Json>,
    pub tools: Seq<ToolDefinitionView>,
    pub provider_tools: Seq<ProviderToolDefinition>,
    pub tool_choice: Option<ToolChoiceView>,
    pub tool_exchange: Seq<ToolExchangeTurnView>,
}

impl DeepView for PriestRequest {
    type V = PriestRequestView;

    open spec fn deep_view(&self) -> PriestRequestView {
        PriestRequestView {
            config: self.config.deep_view(),
            profile: self.profile@,
            prompt: self.prompt@,
            session: self.session.deep_view(),
            context: self.context.deep_view(),
            memory: self.memory.deep_view(),
            user_context: self.user_context.deep_view(),
            images: self.images.deep_view(),
            output: self.output.deep_view(),
            metadata: object_view(self.metadata),
            tools: self.tools.deep_view(),
            provider_tools: self.provider_tools.deep_view(),
            tool_choice: self.tool_choice.deep_view(),
            tool_exchange: self.tool_exchange.deep_view(),
        }
    }
}

impl Clone for PriestRequest {
    fn clone(&self) -> (r: Self)
        ensures
            r.deep_view() == self.deep_view(),
    {
        let r = PriestRequest {
            config: self.config.clone(),
            profile: self.profile.clone(),
            prompt: self.prompt.clone(),
            session: self.session.clone(),
            context: self.context.clone(),
            memory: self.memory.clone(),
            user_context: self.user_context.clone(),
            images: self.images.clone(),
            output: self.output.clone(),
            metadata: self.metadata.clone(),
            tools: self.tools.clone(),
            provider_tools: self.provider_tools.clone(),
            tool_choice: self.tool_choice.clone(),
            tool_exchange: self.tool_exchange.clone(),
        };
        proof {
            assert(r.context.deep_view() =~= self.context.deep_view());
            assert(r.memory.deep_view() =~= self.memory.deep_view());
            assert(r.user_context.deep_view() =~= self.user_context.deep_view());
            assert(r.images.deep_view() =~= self.images.deep_view());
            assert(r.tools.deep_view() =~= self.tools.deep_view());
            assert(r.provider_tools.deep_view() =~= self.provider_tools.deep_view());
            assert(r.tool_exchange.deep_view() =~= self.tool_exchange.deep_view());
        }
        r
    }
}

/// The profile of a request that names none.
pub fn default_profile() -> (r: String)
    ensures
        r@ == "default"@,
{
    "default".to_owned()
}

/// The request that sets nothing but configuration and prompt.
pub open spec fn plain_request(config: PriestConfigView, prompt: Seq<char>) -> PriestRequestView {
    PriestRequestView {
        config,
        profile: "default"@,
        prompt,
        session: None,
        context: Seq::empty(),
        memory: Seq::empty(),
        user_context: Seq::empty(),
        images: Seq::empty(),
        output: plain_output(),
        metadata: Map::empty(),
        tools: Seq::empty(),
        provider_tools: Seq::empty(),
        tool_choice: None,
        tool_exchange: Seq::empty(),
    }
}

impl PriestRequest {
    /// A request that sets nothing but configuration and prompt.
    pub fn new(config: PriestConfig, prompt: &str) -> (r: Self)
        ensures
            r.deep_view() == plain_request(config.deep_view(), prompt@),
    {
        let r = PriestRequest {
            config,
            profile: default_profile(),
            prompt: prompt.to_owned(),
            session: None,
            context: Vec::new(),
            memory: Vec::new(),
            user_context: Vec::new(),
            images: Vec::new(),
            output: OutputSpec::default(),
            metadata: serde_json::Map::new(),
            tools: Vec::new(),
            provider_tools: Vec::new(),
            tool_choice: None,
            tool_exchange: Vec::new(),
        };
        proof {
            let plain = plain_request(config.deep_view(), prompt@);
            assert(r.context.deep_view() =~= plain.context);
            assert(r.images.deep_view() =~= plain.images);
            assert(r.tools.deep_view() =~= plain.tools);
            assert(r.provider_tools.deep_view() =~= plain.provider_tools);
            assert(r.tool_exchange.deep_view() =~= plain.tool_exchange);
        }
        r
    }
}

/// Which session a request belongs to, and what to do if it is not there.
#[derive(Debug)]
pub struct SessionRef {
    pub id: String,
    pub continue_existing: bool,
    pub create_if_missing: bool,
}

/// What a `SessionRef` holds.
pub struct SessionRefView {
    pub id: Seq<char>,
    pub continue_existing: bool,
    pub create_if_missing: bool,
}

impl DeepView for SessionRef {
    type V = SessionRefView;

    open spec fn deep_view(&self) -> SessionRefView {
        SessionRefView {
            id: self.id@,
            continue_existing: self.continue_existing,
            create_if_missing: self.create_if_missing,
        }
    }
}

impl Clone for SessionRef {
    fn clone(&self) -> (r: Self)
        ensures
            r.deep_view() == self.deep_view(),
    {
        SessionRef {
            id: self.id.clone(),
            continue_existing: self.continue_existing,
            create_if_missing: self.create_if_missing,
        }
    }
}

/// What a `SessionRef` that says nothing means for both of its switches.
pub fn bool_true() -> (r: bool)
    ensures
        r,
{
    true
}

impl SessionRef {
    /// Refers to a session that is continued if it is there and created if it is not.
    pub fn new(id: &str) -> (r: Self)
        ensures
            r.deep_view() == (SessionRefView {
                id: id@,
                continue_existing: true,
                create_if_missing: true,
            }),
    {
        SessionRef {
            id: id.to_owned(),
            continue_existing: bool_true(),
            create_if_missing: bool_true(),
        }
    }
}

/// The form in which the answer is wanted.
#[derive(Debug)]
pub struct OutputSpec {
    pub provider_format: Option<String>,
    pub prompt_format: Option<String>,
    /// JSON Schema for structured output. Takes precedence over `provider_format`.
    pub json_schema: Option<Value>,
    /// The schema's name, for providers that take one.
    pub json_schema_name: String,
    /// Whether the provider is to hold to the schema strictly.
    pub json_schema_strict: bool,
}

/// What an `OutputSpec` holds.
pub struct OutputSpecView {
    pub provider_format: Option<Seq<char>>,
    pub prompt_format: Option<Seq<char>>,
    pub json_schema: Option<Json>,
    pub json_schema_name: Seq<char>,
    pub json_schema_strict: bool,
}

impl DeepView for OutputSpec {
    type V = OutputSpecView;

    open spec fn deep_view(&self) -> OutputSpecView {
        OutputSpecView {
            provider_format: self.provider_format.deep_view(),
            prompt_format: self.prompt_format.deep_view(),
            json_schema: optional_view(self.json_schema),
            json_schema_name: self.json_schema_name@,
            json_schema_strict: self.json_schema_strict,
        }
    }
}

impl Clone for OutputSpec {
    fn clone(&self) -> (r: Self)
        ensures
            r.deep_view() == self.deep_view(),
    {
        OutputSpec {
            provider_format: self.provider_format.clone(),
            prompt_format: self.prompt_format.clone(),
            json_schema: self.json_schema.clone(),
            json_schema_name: self.json_schema_name.clone(),
            json_schema_strict: self.json_schema_strict,
        }
    }
}

/// The name of a schema that has none.
pub fn default_json_schema_name() -> (r: String)
    ensures
        r@ == "response"@,
{
    "response".to_owned()
}

/// The output specification that asks for nothing.
pub open spec fn plain_output() -> OutputSpecView {
    OutputSpecView {
        provider_format: None,
        prompt_format: None,
        json_schema: None,
        json_schema_name: "response"@,
        json_schema_strict: false,
    }
}

impl Default for OutputSpec {
    fn default() -> (r: Self)
        ensures
            r.deep_view() == plain_output(),
    {
        OutputSpec {
            provider_format: None,
            prompt_format: None,
            json_schema: None,
            json_schema_name: default_json_schema_name(),
            json_schema_strict: false,
        }
    }
}

/// An image that goes with the prompt.
#[derive(Debug)]
pub struct ImageInput {
    pub path: Option<String>,
    pub url: Option<String>,
    pub data: Option<String>,
    pub media_type: String,
}

/// What an `ImageInput` holds.
pub struct ImageInputView {
    pub path: Option<Seq<char>>,
    pub url: Option<Seq<char>>,
    pub data: Option<Seq<char>>,
    pub media_type: Seq<char>,
}

impl DeepView for ImageInput {
    type V = ImageInputView;

    open spec fn deep_view(&self) -> ImageInputView {
        ImageInputView {
            path: self.path.deep_view(),
            url: self.url.deep_view(),
            data: self.data.deep_view(),
            media_type: self.media_type@,
        }
    }
}

impl Clone for ImageInput {
    fn clone(&self) -> (r: Self)
        ensures
            r.deep_view() == self.deep_view(),
    {
        ImageInput {
            path: self.path.clone(),
            url: self.url.clone(),
            data: self.data.clone(),
            media_type: self.media_type.clone(),
        }
    }
}

/// The media type of an image that names none.
pub fn default_media_type() -> (r: String)
    ensures
        r@ == "image/jpeg"@,
{
    "image/jpeg".to_owned()
}

} // verus!
