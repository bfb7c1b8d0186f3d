//! Errors that the provider reports.
use vstd::prelude::*;

verus! {

/// The page that explains the provider.
pub const URL: &'static str = "https://fnox.jdx.dev/providers/enpass";

/// The provider's name in errors.
pub const PROVIDER: &'static str = "Enpass";

/// What can go wrong when a secret is fetched.
#[derive(Debug)]
pub enum FnoxError {
    /// The vault could not be unlocked.
    ProviderAuthFailed { provider: String, details: String, hint: String, url: String },
    /// The vault could not be read, or a request could not be answered from it.
    ProviderApiError { provider: String, details: String, hint: String, url: String },
    /// The vault does not hold the secret.
    ProviderSecretNotFound { provider: String, secret: String, hint: String, url: String },
}

/// An error as plain texts.
#[verifier::ext_equal]
pub enum ErrorView {
    AuthFailed { provider: Seq<char>, details: Seq<char>, hint: Seq<char>, url: Seq<char> },
    ApiError { provider: Seq<char>, details: Seq<char>, hint: Seq<char>, url: Seq<char> },
    SecretNotFound { provider: Seq<char>, secret: Seq<char>, hint: Seq<char>, url: Seq<char> },
}

impl View for FnoxError {
    type V = ErrorView;

    open spec fn view(&self) -> ErrorView {
        match self {
            FnoxError::ProviderAuthFailed { provider, details, hint, url } => {
                ErrorView::AuthFailed {
                    provider: provider@,
                    details: details@,
                    hint: hint@,
                    url: url@,
                }
            },
            FnoxError::ProviderApiError { provider, details, hint, url } => ErrorView::ApiError {
                provider: provider@,
                details: details@,
                hint: hint@,
                url: url@,
            },
            FnoxError::ProviderSecretNotFound { provider, secret, hint, url } => {
                ErrorView::SecretNotFound {
                    provider: provider@,
                    secret: secret@,
                    hint: hint@,
                    url: url@,
                }
            },
        }
    }
}

/// This provider's error for a vault that could not be unlocked.
pub open spec fn auth_failure(details: Seq<char>, hint: Seq<char>) -> ErrorView {
    ErrorView::AuthFailed { provider: PROVIDER@, details, hint, url: URL@ }
}

/// This provider's error for a vault that could not be read.
pub open spec fn api_failure(details: Seq<char>, hint: Seq<char>) -> ErrorView {
    ErrorView::ApiError { provider: PROVIDER@, details, hint, url: URL@ }
}

/// This provider's error for a secret that is not there.
pub open spec fn not_found(secret: Seq<char>, hint: Seq<char>) -> ErrorView {
    ErrorView::SecretNotFound { provider: PROVIDER@, secret, hint, url: URL@ }
}

/// What an error reads as in one line.
pub open spec fn message_of(e: ErrorView) -> Seq<char> {
    match e {
        ErrorView::AuthFailed { provider, details, .. } => provider + ": authentication failed: "@
            + details,
        ErrorView::ApiError { provider, details, .. } => provider + ": "@ + details,
        ErrorView::SecretNotFound { provider, secret, .. } => provider + ": secret '"@ + secret
            + "' not found"@,
    }
}

/// The outcome of a request for a text, as plain texts.
pub open spec fn text_outcome(r: Result<String, FnoxError>) -> Result<Seq<char>, ErrorView> {
    match r {
        Ok(s) => Ok(s@),
        Err(e) => Err(e@),
    }
}

/// The outcome of a request for bytes.
pub open spec fn bytes_outcome(r: Result<Vec<u8>, FnoxError>) -> Result<Seq<u8>, ErrorView> {
    match r {
        Ok(v) => Ok(v@),
        Err(e) => Err(e@),
    }
}

impl FnoxError {
    /// The error in one line of text.
    pub fn message(&self) -> (r: String)
        ensures
            r@ == message_of(self@),
    {
        match self {
            FnoxError::ProviderAuthFailed { provider, details, .. } => provider.clone().concat(
                ": authentication failed: ",
            ).concat(details.as_str()),
            FnoxError::ProviderApiError { provider, details, .. } => provider.clone().concat(
                ": ",
            ).concat(details.as_str()),
            FnoxError::ProviderSecretNotFound { provider, secret, .. } => provider.clone().concat(
                ": secret '",
            ).concat(secret.as_str()).concat("' not found"),
        }
    }
}

/// Makes an error for a vault that could not be unlocked.
pub fn auth_error(details: String, hint: &str) -> (r: FnoxError)
    ensures
        r@ == auth_failure(details@, hint@),
{
    FnoxError::ProviderAuthFailed {
        provider: PROVIDER.to_owned(),
        details,
        hint: hint.to_owned(),
        url: URL.to_owned(),
    }
}

/// Makes an error for a vault that could not be read.
pub fn api_error(details: String, hint: &str) -> (r: FnoxError)
    ensures
        r@ == api_failure(details@, hint@),
{
    FnoxError::ProviderApiError {
        provider: PROVIDER.to_owned(),
        details,
        hint: hint.to_owned(),
        url: URL.to_owned(),
    }
}

/// Makes an error for a secret that is not there.
pub fn not_found_error(secret: &str, hint: String) -> (r: FnoxError)
    ensures
        r@ == not_found(secret@, hint@),
{
    FnoxError::ProviderSecretNotFound {
        provider: PROVIDER.to_owned(),
        secret: secret.to_owned(),
        hint,
        url: URL.to_owned(),
    }
}

} // verus!
