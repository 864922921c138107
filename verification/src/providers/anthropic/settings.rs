//! Where the Messages API is and how to be let in.

use vstd::prelude::*;

verus! {

/// The settings of an Anthropic provider.
#[derive(Debug)]
pub struct AnthropicProvider {
    pub base_url: String,
    pub api_key: String,
}

/// What an `AnthropicProvider` holds.
pub struct AnthropicProviderView {
    pub base_url: Seq<char>,
    pub api_key: Seq<char>,
}

impl DeepView for AnthropicProvider {
    type V = AnthropicProviderView;

    open spec fn deep_view(&self) -> AnthropicProviderView {
        AnthropicProviderView { base_url: self.base_url@, api_key: self.api_key@ }
    }
}

impl AnthropicProvider {
    /// The usual place, with a key.
    pub fn new(api_key: &str) -> (r: Self)
        ensures
            r.deep_view() == (AnthropicProviderView {
                base_url: "https://api.anthropic.com"@,
                api_key: api_key@,
            }),
    {
        AnthropicProvider::with_base_url(api_key, "https://api.anthropic.com")
    }

    /// Another place, with a key.
    pub fn with_base_url(api_key: &str, base_url: &str) -> (r: Self)
        ensures
            r.deep_view() == (AnthropicProviderView { base_url: base_url@, api_key: api_key@ }),
    {
        AnthropicProvider { base_url: base_url.to_owned(), api_key: api_key.to_owned() }
    }

    /// Where requests are posted to.
    pub fn url(&self) -> (r: String)
        ensures
            r@ == self.deep_view().base_url + "/v1/messages"@,
    {
        self.base_url.clone().concat("/v1/messages")
    }
}

} // verus!
