//! What can go wrong, each with a stable code, a message and details.

use crate::schema::config::Decimal;
use vstd::prelude::*;

verus! {

#[derive(Debug)]
pub enum PriestError {
    ProfileNotFound { profile: String },
    ProfileInvalid { profile: String, reason: String },
    SessionNotFound { session_id: String },
    SessionStoreError { message: String },
    ProviderNotRegistered { provider: String },
    ProviderTimeout { provider: String, timeout: Decimal },
    ProviderError { provider: String, message: String },
    ProviderRateLimited { provider: String, retry_after: Option<Decimal> },
    RequestInvalid { message: String },
    RequestAborted { message: String },
    ImageLoadError { message: String },
    InternalError { message: String },
}

/// What a `PriestError` holds.
pub enum PriestErrorView {
    ProfileNotFound { profile: Seq<char> },
    ProfileInvalid { profile: Seq<char>, reason: Seq<char> },
    SessionNotFound { session_id: Seq<char> },
    SessionStoreError { message: Seq<char> },
    ProviderNotRegistered { provider: Seq<char> },
    ProviderTimeout { provider: Seq<char>, timeout: Seq<char> },
    ProviderError { provider: Seq<char>, message: Seq<char> },
    ProviderRateLimited { provider: Seq<char>, retry_after: Option<Seq<char>> },
    RequestInvalid { message: Seq<char> },
    RequestAborted { message: Seq<char> },
    ImageLoadError { message: Seq<char> },
    InternalError { message: Seq<char> },
}

impl DeepView for PriestError {
    type V = PriestErrorView;

    open spec fn deep_view(&self) -> PriestErrorView {
        match self {
            PriestError::ProfileNotFound { profile } => PriestErrorView::ProfileNotFound {
                profile: profile@,
            },
            PriestError::ProfileInvalid { profile, reason } => PriestErrorView::ProfileInvalid {
                profile: profile@,
                reason: reason@,
            },
            PriestError::SessionNotFound { session_id } => PriestErrorView::SessionNotFound {
                session_id: session_id@,
            },
            PriestError::SessionStoreError { message } => PriestErrorView::SessionStoreError {
                message: message@,
            },
            PriestError::ProviderNotRegistered {
                provider,
            } => PriestErrorView::ProviderNotRegistered { provider: provider@ },
            PriestError::ProviderTimeout { provider, timeout } => PriestErrorView::ProviderTimeout {
                provider: provider@,
                timeout: timeout.deep_view(),
            },
            PriestError::ProviderError { provider, message } => PriestErrorView::ProviderError {
                provider: provider@,
                message: message@,
            },
            PriestError::ProviderRateLimited {
                provider,
                retry_after,
            } => PriestErrorView::ProviderRateLimited {
                provider: provider@,
                retry_after: retry_after.deep_view(),
            },
            PriestError::RequestInvalid { message } => PriestErrorView::RequestInvalid {
                message: message@,
            },
            PriestError::RequestAborted { message } => PriestErrorView::RequestAborted {
                message: message@,
            },
            PriestError::ImageLoadError { message } => PriestErrorView::ImageLoadError {
                message: message@,
            },
            PriestError::InternalError { message } => PriestErrorView::InternalError {
                message: message@,
            },
        }
    }
}

/// What a result that may be an error holds.
pub open spec fn result_view<T: DeepView>(r: Result<T, PriestError>) -> Result<
    T::V,
    PriestErrorView,
> {
    match r {
        Ok(value) => Ok(value.deep_view()),
        Err(e) => Err(e.deep_view()),
    }
}

impl PriestErrorView {
    /// The error's stable code.
    pub open spec fn code(self) -> Seq<char> {
        match self {
            PriestErrorView::ProfileNotFound { .. } => "PROFILE_NOT_FOUND"@,
            PriestErrorView::ProfileInvalid { .. } => "PROFILE_INVALID"@,
            PriestErrorView::SessionNotFound { .. } => "SESSION_NOT_FOUND"@,
            PriestErrorView::SessionStoreError { .. } => "SESSION_STORE_ERROR"@,
            PriestErrorView::ProviderNotRegistered { .. } => "PROVIDER_NOT_REGISTERED"@,
            PriestErrorView::ProviderTimeout { .. } => "PROVIDER_TIMEOUT"@,
            PriestErrorView::ProviderError { .. } => "PROVIDER_ERROR"@,
            PriestErrorView::ProviderRateLimited { .. } => "PROVIDER_RATE_LIMITED"@,
            PriestErrorView::RequestInvalid { .. } => "REQUEST_INVALID"@,
            PriestErrorView::RequestAborted { .. } => "REQUEST_ABORTED"@,
            PriestErrorView::ImageLoadError { .. } => "IMAGE_LOAD_ERROR"@,
            PriestErrorView::InternalError { .. } => "INTERNAL_ERROR"@,
        }
    }

    /// The error in words.
    pub open spec fn message(self) -> Seq<char> {
        match self {
            PriestErrorView::ProfileNotFound { profile } => "profile not found: "@ + profile,
            PriestErrorView::ProfileInvalid { profile, reason } => "profile invalid: "@ + profile
                + " — "@ + reason,
            PriestErrorView::SessionNotFound { session_id } => "session not found: "@ + session_id,
            PriestErrorView::SessionStoreError { message } => "session store error: "@ + message,
            PriestErrorView::ProviderNotRegistered { provider } => "provider not registered: "@
                + provider,
            PriestErrorView::ProviderTimeout { provider, timeout } => "provider timeout: "@
                + provider + " after "@ + timeout + "s"@,
            PriestErrorView::ProviderError { provider, message } => "provider error: "@ + provider
                + " — "@ + message,
            PriestErrorView::ProviderRateLimited { provider, .. } => "provider rate limited: "@
                + provider,
            PriestErrorView::RequestInvalid { message } => "request invalid: "@ + message,
            PriestErrorView::RequestAborted { message } => "request aborted: "@ + message,
            PriestErrorView::ImageLoadError { message } => "image load error: "@ + message,
            PriestErrorView::InternalError { message } => "internal error: "@ + message,
        }
    }

    /// What the error is about, as names and values.
    pub open spec fn details(self) -> Seq<(Seq<char>, Seq<char>)> {
        match self {
            PriestErrorView::ProfileNotFound { profile } => seq![("profile"@, profile)],
            PriestErrorView::ProfileInvalid { profile, .. } => seq![("profile"@, profile)],
            PriestErrorView::SessionNotFound { session_id } => seq![("session_id"@, session_id)],
            PriestErrorView::ProviderNotRegistered { provider } => seq![("provider"@, provider)],
            PriestErrorView::ProviderTimeout { provider, timeout } => seq![
                ("provider"@, provider),
                ("timeout"@, timeout),
            ],
            PriestErrorView::ProviderError { provider, .. } => seq![("provider"@, provider)],
            PriestErrorView::ProviderRateLimited {
                provider,
                retry_after: None,
            } => seq![("provider"@, provider)],
            PriestErrorView::ProviderRateLimited {
                provider,
                retry_after: Some(after),
            } => seq![("provider"@, provider), ("retry_after"@, after)],
            _ => Seq::empty(),
        }
    }
}

fn detail(name: &str, value: &String) -> (r: (String, String))
    ensures
        r.deep_view() == (name@, value@),
{
    (name.to_owned(), value.clone())
}

impl PriestError {
    /// The error's stable code.
    pub fn code(&self) -> (r: &'static str)
        ensures
            r@ == self.deep_view().code(),
    {
        match self {
            PriestError::ProfileNotFound { .. } => "PROFILE_NOT_FOUND",
            PriestError::ProfileInvalid { .. } => "PROFILE_INVALID",
            PriestError::SessionNotFound { .. } => "SESSION_NOT_FOUND",
            PriestError::SessionStoreError { .. } => "SESSION_STORE_ERROR",
            PriestError::ProviderNotRegistered { .. } => "PROVIDER_NOT_REGISTERED",
            PriestError::ProviderTimeout { .. } => "PROVIDER_TIMEOUT",
            PriestError::ProviderError { .. } => "PROVIDER_ERROR",
            PriestError::ProviderRateLimited { .. } => "PROVIDER_RATE_LIMITED",
            PriestError::RequestInvalid { .. } => "REQUEST_INVALID",
            PriestError::RequestAborted { .. } => "REQUEST_ABORTED",
            PriestError::ImageLoadError { .. } => "IMAGE_LOAD_ERROR",
            PriestError::InternalError { .. } => "INTERNAL_ERROR",
        }
    }

    /// The error in words.
    pub fn message(&self) -> (r: String)
        ensures
            r@ == self.deep_view().message(),
    {
        match self {
            PriestError::ProfileNotFound { profile } => {
                "profile not found: ".to_owned().concat(profile.as_str())
            },
            PriestError::ProfileInvalid { profile, reason } => {
                "profile invalid: ".to_owned().concat(profile.as_str()).concat(" — ").concat(
                    reason.as_str(),
                )
            },
            PriestError::SessionNotFound { session_id } => {
                "session not found: ".to_owned().concat(session_id.as_str())
            },
            PriestError::SessionStoreError { message } => {
                "session store error: ".to_owned().concat(message.as_str())
            },
            PriestError::ProviderNotRegistered { provider } => {
                "provider not registered: ".to_owned().concat(provider.as_str())
            },
            PriestError::ProviderTimeout { provider, timeout } => {
                "provider timeout: ".to_owned().concat(provider.as_str()).concat(" after ").concat(
                    timeout.text.as_str(),
                ).concat("s")
            },
            PriestError::ProviderError { provider, message } => {
                "provider error: ".to_owned().concat(provider.as_str()).concat(" — ").concat(
                    message.as_str(),
                )
            },
            PriestError::ProviderRateLimited { provider, .. } => {
                "provider rate limited: ".to_owned().concat(provider.as_str())
            },
            PriestError::RequestInvalid { message } => {
                "request invalid: ".to_owned().concat(message.as_str())
            },
            PriestError::RequestAborted { message } => {
                "request aborted: ".to_owned().concat(message.as_str())
            },
            PriestError::ImageLoadError { message } => {
                "image load error: ".to_owned().concat(message.as_str())
            },
            PriestError::InternalError { message } => {
                "internal error: ".to_owned().concat(message.as_str())
            },
        }
    }

    /// What the error is about, as names and values. No name stands twice.
    pub fn details(&self) -> (r: Vec<(String, String)>)
        ensures
            r.deep_view() == self.deep_view().details(),
    {
        let mut r: Vec<(String, String)> = Vec::new();
        match self {
            PriestError::ProfileNotFound { profile } => {
                r.push(detail("profile", profile));
            },
            PriestError::ProfileInvalid { profile, .. } => {
                r.push(detail("profile", profile));
            },
            PriestError::SessionNotFound { session_id } => {
                r.push(detail("session_id", session_id));
            },
            PriestError::ProviderNotRegistered { provider } => {
                r.push(detail("provider", provider));
            },
            PriestError::ProviderTimeout { provider, timeout } => {
                r.push(detail("provider", provider));
                r.push(detail("timeout", &timeout.text));
            },
            PriestError::ProviderError { provider, .. } => {
                r.push(detail("provider", provider));
            },
            PriestError::ProviderRateLimited { provider, retry_after } => {
                r.push(detail("provider", provider));
                if let Some(after) = retry_after {
                    r.push(detail("retry_after", &after.text));
                }
            },
            _ => {},
        }
        assert(r.deep_view() =~= self.deep_view().details());
        r
    }
}

/// Errors of two kinds never share a code, and the code tells the kind.
pub proof fn law_codes_are_distinct(a: PriestErrorView, b: PriestErrorView)
    ensures
        a.code() == b.code() <==> same_kind(a, b),
{
    reveal_strlit("PROFILE_NOT_FOUND");
    reveal_strlit("PROFILE_INVALID");
    reveal_strlit("SESSION_NOT_FOUND");
    reveal_strlit("SESSION_STORE_ERROR");
    reveal_strlit("PROVIDER_NOT_REGISTERED");
    reveal_strlit("PROVIDER_TIMEOUT");
    reveal_strlit("PROVIDER_ERROR");
    reveal_strlit("PROVIDER_RATE_LIMITED");
    reveal_strlit("REQUEST_INVALID");
    reveal_strlit("REQUEST_ABORTED");
    reveal_strlit("IMAGE_LOAD_ERROR");
    reveal_strlit("INTERNAL_ERROR");
    if a.code() == b.code() && !same_kind(a, b) {
        assert(a.code().len() == b.code().len());
        assert(a.code()[0] == b.code()[0]);
        assert(a.code()[8] == b.code()[8]);
    }
}

/// Whether two errors are of one kind.
pub open spec fn same_kind(a: PriestErrorView, b: PriestErrorView) -> bool {
    match a {
        PriestErrorView::ProfileNotFound { .. } => b is ProfileNotFound,
        PriestErrorView::ProfileInvalid { .. } => b is ProfileInvalid,
        PriestErrorView::SessionNotFound { .. } => b is SessionNotFound,
        PriestErrorView::SessionStoreError { .. } => b is SessionStoreError,
        PriestErrorView::ProviderNotRegistered { .. } => b is ProviderNotRegistered,
        PriestErrorView::ProviderTimeout { .. } => b is ProviderTimeout,
        PriestErrorView::ProviderError { .. } => b is ProviderError,
        PriestErrorView::ProviderRateLimited { .. } => b is ProviderRateLimited,
        PriestErrorView::RequestInvalid { .. } => b is RequestInvalid,
        PriestErrorView::RequestAborted { .. } => b is RequestAborted,
        PriestErrorView::ImageLoadError { .. } => b is ImageLoadError,
        PriestErrorView::InternalError { .. } => b is InternalError,
    }
}

} // verus!
