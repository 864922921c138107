//! Where the Responses API is and how to be let in.

use crate::lists;
use crate::schema::config::PriestConfig;
use crate::schema::tools::ProviderToolDefinition;
use crate::text;
use crate::text::without_suffixes;
use vstd::prelude::*;

verus! {

pub const DEFAULT_BASE_URL: &'static str = "https://api.openai.com";

/// The settings of a Responses provider.
#[derive(Debug)]
pub struct OpenAIResponsesProvider {
    pub base_url: String,
    /// Where to post to, whatever the base URL is.
    pub exact_url: Option<String>,
    pub api_key: Option<String>,
    /// Headers to send with each request.
    pub headers: Vec<(String, String)>,
}

/// What an `OpenAIResponsesProvider` holds.
pub struct OpenAIResponsesProviderView {
    pub base_url: Seq<char>,
    pub exact_url: Option<Seq<char>>,
    pub api_key: Option<Seq<char>>,
    pub headers: Seq<(Seq<char>, Seq<char>)>,
}

impl DeepView for OpenAIResponsesProvider {
    type V = OpenAIResponsesProviderView;

    open spec fn deep_view(&self) -> OpenAIResponsesProviderView {
        OpenAIResponsesProviderView {
            base_url: self.base_url@,
            exact_url: self.exact_url.deep_view(),
            api_key: self.api_key.deep_view(),
            headers: self.headers.deep_view(),
        }
    }
}

impl OpenAIResponsesProviderView {
    /// Where requests are posted to.
    pub open spec fn endpoint(self) -> Seq<char> {
        match self.exact_url {
            Some(url) => url,
            None => without_suffixes(self.base_url, "/"@) + "/v1/responses"@,
        }
    }
}

/// The settings that differ from the usual ones in the key alone.
pub open spec fn usual_settings(api_key: Option<Seq<char>>) -> OpenAIResponsesProviderView {
    OpenAIResponsesProviderView {
        base_url: DEFAULT_BASE_URL@,
        exact_url: None,
        api_key,
        headers: Seq::empty(),
    }
}

impl OpenAIResponsesProvider {
    /// The usual settings with a key.
    pub fn new(api_key: &str) -> (r: Self)
        ensures
            r.deep_view() == usual_settings(Some(api_key@)),
    {
        let mut r = OpenAIResponsesProvider::without_api_key();
        r.api_key = Some(api_key.to_owned());
        r
    }

    /// The usual settings without a key.
    pub fn without_api_key() -> (r: Self)
        ensures
            r.deep_view() == usual_settings(None),
    {
        OpenAIResponsesProvider {
            base_url: DEFAULT_BASE_URL.to_owned(),
            exact_url: None,
            api_key: None,
            headers: lists::no_items(),
        }
    }

    /// These settings with another base URL.
    pub fn with_base_url(self, base_url: &str) -> (r: Self)
        ensures
            r.deep_view() == (OpenAIResponsesProviderView {
                base_url: base_url@,
                ..self.deep_view()
            }),
    {
        OpenAIResponsesProvider { base_url: base_url.to_owned(), ..self }
    }

    /// These settings with an URL that is used as it stands.
    pub fn with_exact_url(self, url: &str) -> (r: Self)
        ensures
            r.deep_view() == (OpenAIResponsesProviderView {
                exact_url: Some(url@),
                ..self.deep_view()
            }),
    {
        OpenAIResponsesProvider { exact_url: Some(url.to_owned()), ..self }
    }

    /// These settings with other headers.
    pub fn with_headers(self, headers: Vec<(String, String)>) -> (r: Self)
        ensures
            r.deep_view() == (OpenAIResponsesProviderView {
                headers: headers.deep_view(),
                ..self.deep_view()
            }),
    {
        OpenAIResponsesProvider { headers, ..self }
    }

    /// Where requests are posted to.
    pub fn url(&self) -> (r: String)
        ensures
            r@ == self.deep_view().endpoint(),
    {
        match &self.exact_url {
            Some(url) => url.clone(),
            None => text::trim_end_matches(self.base_url.as_str(), "/").concat("/v1/responses"),
        }
    }

    /// Whether the provider can execute a tool. It can search the web.
    pub fn supports_provider_tool(
        &self,
        tool: &ProviderToolDefinition,
        config: &PriestConfig,
    ) -> (r: bool)
        ensures
            r == (*tool == ProviderToolDefinition::WebSearch),
    {
        match tool {
            ProviderToolDefinition::WebSearch => true,
        }
    }
}

impl Default for OpenAIResponsesProvider {
    fn default() -> (r: Self)
        ensures
            r.deep_view() == usual_settings(None),
    {
        OpenAIResponsesProvider::without_api_key()
    }
}

} // verus!
