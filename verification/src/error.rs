//! What can go wrong at the provider.
use crate::text::{decimal, decimal_text};
use vstd::prelude::*;
use vstd::string::*;

verus! {

/// A failure of the model provider.
#[derive(Debug, PartialEq, Eq)]
pub enum ProviderError {
    /// The provider answered with an error.
    Api { status: u16, message: String, retryable: bool },
    /// Too many requests.
    RateLimit { retry_after_ms: Option<u64> },
    /// The provider is overloaded.
    Overloaded { retry_after_ms: Option<u64> },
    /// The request did not get through.
    Http(String),
    /// The answer is no JSON.
    Decode(String),
    /// Anything else.
    Other(String),
}

/// What a [`ProviderError`] stands for.
#[verifier::ext_equal]
pub enum ProviderErrorView {
    Api { status: u16, message: Seq<char>, retryable: bool },
    RateLimit { retry_after_ms: Option<u64> },
    Overloaded { retry_after_ms: Option<u64> },
    Http(Seq<char>),
    Decode(Seq<char>),
    Other(Seq<char>),
}

impl View for ProviderError {
    type V = ProviderErrorView;

    open spec fn view(&self) -> ProviderErrorView {
        match *self {
            ProviderError::Api { status, message, retryable } => ProviderErrorView::Api {
                status,
                message: message@,
                retryable,
            },
            ProviderError::RateLimit { retry_after_ms } => ProviderErrorView::RateLimit {
                retry_after_ms,
            },
            ProviderError::Overloaded { retry_after_ms } => ProviderErrorView::Overloaded {
                retry_after_ms,
            },
            ProviderError::Http(text) => ProviderErrorView::Http(text@),
            ProviderError::Decode(text) => ProviderErrorView::Decode(text@),
            ProviderError::Other(text) => ProviderErrorView::Other(text@),
        }
    }
}

impl ProviderErrorView {
    /// Whether trying again may help: a rate limit, an overload, or an error
    /// that says so.
    pub open spec fn is_retryable(self) -> bool {
        match self {
            ProviderErrorView::Api { retryable, .. } => retryable,
            ProviderErrorView::RateLimit { .. } | ProviderErrorView::Overloaded { .. } => true,
            _ => false,
        }
    }

    /// The error as text.
    pub open spec fn text(self) -> Seq<char> {
        match self {
            ProviderErrorView::Api { status, message, .. } => "API error "@ + decimal(
                status as nat,
            ) + ": "@ + message,
            ProviderErrorView::RateLimit { .. } => "rate limited"@,
            ProviderErrorView::Overloaded { .. } => "provider overloaded"@,
            ProviderErrorView::Http(text) => "HTTP error: "@ + text,
            ProviderErrorView::Decode(text) => "invalid JSON: "@ + text,
            ProviderErrorView::Other(text) => text,
        }
    }
}

impl ProviderError {
    /// The error as text.
    pub fn message(&self) -> (r: String)
        ensures
            r@ == self@.text(),
    {
        match self {
            ProviderError::Api { status, message, .. } => {
                let mut text: String = "API error ".to_owned();
                text.append(decimal_text(*status as u128).as_str());
                text.append(": ");
                text.append(message.as_str());
                text
            },
            ProviderError::RateLimit { .. } => "rate limited".to_owned(),
            ProviderError::Overloaded { .. } => "provider overloaded".to_owned(),
            ProviderError::Http(reason) => {
                let mut text: String = "HTTP error: ".to_owned();
                text.append(reason.as_str());
                text
            },
            ProviderError::Decode(reason) => {
                let mut text: String = "invalid JSON: ".to_owned();
                text.append(reason.as_str());
                text
            },
            ProviderError::Other(text) => text.clone(),
        }
    }

    /// Whether trying again may help.
    pub fn is_retryable(&self) -> (r: bool)
        ensures
            r == self@.is_retryable(),
    {
        match self {
            ProviderError::Api { retryable, .. } => *retryable,
            ProviderError::RateLimit { .. } | ProviderError::Overloaded { .. } => true,
            _ => false,
        }
    }
}

} // verus!
