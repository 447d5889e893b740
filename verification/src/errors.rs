//! The errors of the application and the texts that users read.
use vstd::prelude::*;

use crate::text::{cat2, cat3, cat5, number_text};

verus! {

broadcast use vstd::string::group_string_axioms;

/// Which provider endpoint a request went to.
#[derive(Debug, Clone, PartialEq, Eq)]
pub enum EndpointCategory {
    Models,
    Chat,
    Other(String),
}

/// The name of an endpoint.
pub open spec fn endpoint_text(endpoint: EndpointCategory) -> Seq<char> {
    match endpoint {
        EndpointCategory::Models => "models"@,
        EndpointCategory::Chat => "chat"@,
        EndpointCategory::Other(value) => value@,
    }
}

impl EndpointCategory {
    /// The name of the endpoint.
    pub fn to_text(&self) -> (r: String)
        ensures
            r@ == endpoint_text(*self),
    {
        match self {
            EndpointCategory::Models => "models".to_string(),
            EndpointCategory::Chat => "chat".to_string(),
            EndpointCategory::Other(value) => value.clone(),
        }
    }
}

/// What went wrong with a provider request.
#[derive(Debug, Clone, PartialEq, Eq)]
pub enum HttpProblem {
    Auth,
    RateLimit { retry_after: Option<String> },
    Provider,
    UnexpectedFormat,
    Network,
}

/// A failed provider request. `status` is the HTTP status code, where there is
/// one.
#[derive(Debug, Clone, PartialEq, Eq)]
pub struct ProviderHttpError {
    pub provider: String,
    pub endpoint: EndpointCategory,
    pub status: Option<u16>,
    pub problem: HttpProblem,
    pub reason: String,
}

/// The status as it stands in an error text.
pub open spec fn status_text(status: Option<u16>) -> Seq<char> {
    match status {
        Some(code) => crate::text::decimal(code as nat),
        None => "no HTTP status"@,
    }
}

/// The text of a failed provider request.
pub open spec fn http_error_text(e: ProviderHttpError) -> Seq<char> {
    let at = "' on "@ + endpoint_text(e.endpoint) + " endpoint"@;
    let status = " (status "@ + status_text(e.status) + ")"@;
    match e.problem {
        HttpProblem::Auth => "Authentication failed for provider '"@ + e.provider@ + at + status
            + ". Check that the token exists, is not expired, and belongs to this provider."@,
        HttpProblem::RateLimit { retry_after } => match retry_after {
            Some(after) => "Rate limit from provider '"@ + e.provider@ + at + status
                + (". Retry after "@ + after@ + "."@),
            None => "Rate limit from provider '"@ + e.provider@ + at + status
                + ". Try again later."@,
        },
        HttpProblem::UnexpectedFormat => "Provider '"@ + e.provider@ + (
        "' returned an unexpected response format on "@ + endpoint_text(e.endpoint) + " endpoint"@)
            + status + (": "@ + e.reason@),
        HttpProblem::Network => "Network error while contacting provider '"@ + e.provider@ + at
            + ". Check DNS, TLS, proxy settings, and timeout: "@ + e.reason@,
        HttpProblem::Provider => "Provider '"@ + e.provider@ + (
        "' error on "@ + endpoint_text(e.endpoint) + " endpoint"@) + status + (": "@ + e.reason@),
    }
}

impl ProviderHttpError {
    /// The text that users read.
    pub fn to_text(&self) -> (r: String)
        ensures
            r@ == http_error_text(*self),
    {
        let endpoint = self.endpoint.to_text();
        let code = match self.status {
            Some(code) => number_text(code as u64),
            None => "no HTTP status".to_string(),
        };
        let at = cat3("' on ", endpoint.as_str(), " endpoint");
        let status = cat3(" (status ", code.as_str(), ")");
        match &self.problem {
            HttpProblem::Auth => cat5(
                "Authentication failed for provider '",
                self.provider.as_str(),
                at.as_str(),
                status.as_str(),
                ". Check that the token exists, is not expired, and belongs to this provider.",
            ),
            HttpProblem::RateLimit { retry_after } => {
                let tail = match retry_after {
                    Some(after) => cat3(". Retry after ", after.as_str(), "."),
                    None => ". Try again later.".to_string(),
                };
                cat5(
                    "Rate limit from provider '",
                    self.provider.as_str(),
                    at.as_str(),
                    status.as_str(),
                    tail.as_str(),
                )
            },
            HttpProblem::UnexpectedFormat => {
                let where_ = cat3(
                    "' returned an unexpected response format on ",
                    endpoint.as_str(),
                    " endpoint",
                );
                let tail = cat2(": ", self.reason.as_str());
                cat5(
                    "Provider '",
                    self.provider.as_str(),
                    where_.as_str(),
                    status.as_str(),
                    tail.as_str(),
                )
            },
            HttpProblem::Network => cat5(
                "Network error while contacting provider '",
                self.provider.as_str(),
                at.as_str(),
                ". Check DNS, TLS, proxy settings, and timeout: ",
                self.reason.as_str(),
            ),
            HttpProblem::Provider => {
                let where_ = cat3("' error on ", endpoint.as_str(), " endpoint");
                let tail = cat2(": ", self.reason.as_str());
                cat5(
                    "Provider '",
                    self.provider.as_str(),
                    where_.as_str(),
                    status.as_str(),
                    tail.as_str(),
                )
            },
        }
    }
}

/// The errors of the application. A path is held as the text that shows it.
#[derive(Debug, Clone, PartialEq, Eq)]
pub enum AppError {
    Config { path: String, message: String },
    ProfileMissing(String),
    NoActiveProfile,
    MissingToken { profile: String },
    Secret(String),
    Terminal(String),
    ProviderHttp(ProviderHttpError),
    Json(String),
    Toon(String),
    Mcp(String),
    UnsupportedProvider(String),
    InvalidBaseUrl { profile: String, url: String },
    InvalidInput(String),
}

/// The text of an error.
pub open spec fn error_text(e: AppError) -> Seq<char> {
    match e {
        AppError::Config { path, message } => "Config error at "@ + path@ + ": "@ + message@,
        AppError::ProfileMissing(name) => "Profile '"@ + name@ + "' was not found"@,
        AppError::NoActiveProfile => "No active profile. Run `ai-playground profile use <name>` first"@,
        AppError::MissingToken { profile } => "Token is missing for profile '"@ + profile@
            + "'. Run `ai-playground token set --profile "@ + profile@ + "`"@,
        AppError::Secret(message) => "Secret storage error: "@ + message@,
        AppError::Terminal(message) => "Terminal I/O error: "@ + message@,
        AppError::ProviderHttp(error) => http_error_text(error),
        AppError::Json(message) => "Provider response has an unexpected JSON format: "@ + message@,
        AppError::Toon(message) => "TOON error: "@ + message@,
        AppError::Mcp(message) => "MCP error: "@ + message@,
        AppError::UnsupportedProvider(name) => "Unsupported provider: "@ + name@,
        AppError::InvalidBaseUrl { profile, url } => "Invalid base_url for profile '"@ + profile@
            + "': "@ + url@,
        AppError::InvalidInput(message) => "Invalid input: "@ + message@,
    }
}

impl AppError {
    /// The text that users read.
    pub fn to_text(&self) -> (r: String)
        ensures
            r@ == error_text(*self),
    {
        match self {
            AppError::Config { path, message } => crate::text::cat4(
                "Config error at ",
                path.as_str(),
                ": ",
                message.as_str(),
            ),
            AppError::ProfileMissing(name) => cat3("Profile '", name.as_str(), "' was not found"),
            AppError::NoActiveProfile => {
                "No active profile. Run `ai-playground profile use <name>` first".to_string()
            },
            AppError::MissingToken { profile } => cat5(
                "Token is missing for profile '",
                profile.as_str(),
                "'. Run `ai-playground token set --profile ",
                profile.as_str(),
                "`",
            ),
            AppError::Secret(message) => cat2("Secret storage error: ", message.as_str()),
            AppError::Terminal(message) => cat2("Terminal I/O error: ", message.as_str()),
            AppError::ProviderHttp(error) => error.to_text(),
            AppError::Json(message) => cat2(
                "Provider response has an unexpected JSON format: ",
                message.as_str(),
            ),
            AppError::Toon(message) => cat2("TOON error: ", message.as_str()),
            AppError::Mcp(message) => cat2("MCP error: ", message.as_str()),
            AppError::UnsupportedProvider(name) => cat2("Unsupported provider: ", name.as_str()),
            AppError::InvalidBaseUrl { profile, url } => crate::text::cat4(
                "Invalid base_url for profile '",
                profile.as_str(),
                "': ",
                url.as_str(),
            ),
            AppError::InvalidInput(message) => cat2("Invalid input: ", message.as_str()),
        }
    }
}

/// What a failing HTTP status means.
pub open spec fn status_problem(status: u16, retry_after: Option<String>) -> HttpProblem {
    if status == 401 || status == 403 {
        HttpProblem::Auth
    } else if status == 429 {
        HttpProblem::RateLimit { retry_after }
    } else {
        HttpProblem::Provider
    }
}

/// The error for a response with a failing status: 401 and 403 are problems of
/// authentication, 429 is a rate limit, anything else is the provider's.
pub fn map_http_status(
    provider: &str,
    endpoint: EndpointCategory,
    status: u16,
    retry_after: Option<String>,
    reason: &str,
) -> (r: ProviderHttpError)
    ensures
        r.provider@ == provider@,
        r.endpoint == endpoint,
        r.status == Some(status),
        r.problem == status_problem(status, retry_after),
        r.reason@ == reason@,
{
    let problem = if status == 401 || status == 403 {
        HttpProblem::Auth
    } else if status == 429 {
        HttpProblem::RateLimit { retry_after }
    } else {
        HttpProblem::Provider
    };
    ProviderHttpError {
        provider: provider.to_string(),
        endpoint,
        status: Some(status),
        problem,
        reason: reason.to_string(),
    }
}

/// The error of an HTTP exchange that broke off: a body that could not be
/// decoded is an unexpected format, anything else a network problem.
pub fn transport_error(
    provider: &str,
    endpoint: EndpointCategory,
    status: Option<u16>,
    decode_failed: bool,
    reason: &str,
) -> (r: AppError)
    ensures
        r matches AppError::ProviderHttp(e) && e.provider@ == provider@ && e.endpoint == endpoint
            && e.status == status && e.reason@ == reason@ && e.problem == (if decode_failed {
            HttpProblem::UnexpectedFormat
        } else {
            HttpProblem::Network
        }),
{
    AppError::ProviderHttp(
        ProviderHttpError {
            provider: provider.to_string(),
            endpoint,
            status,
            problem: if decode_failed {
                HttpProblem::UnexpectedFormat
            } else {
                HttpProblem::Network
            },
            reason: reason.to_string(),
        },
    )
}

/// The error of an HTTP exchange outside any provider call.
pub fn unknown_transport_error(status: Option<u16>, decode_failed: bool, reason: &str) -> (r: AppError)
    ensures
        r matches AppError::ProviderHttp(e) && e.provider@ == "unknown"@ && (
        e.endpoint matches EndpointCategory::Other(name) && name@ == "unknown"@) && e.status
            == status && e.reason@ == reason@ && e.problem == (if decode_failed {
            HttpProblem::UnexpectedFormat
        } else {
            HttpProblem::Network
        }),
{
    transport_error(
        "unknown",
        EndpointCategory::Other("unknown".to_string()),
        status,
        decode_failed,
        reason,
    )
}

/// What a status means: a refused token at 401 and 403, too many requests at 429
/// with the time to wait as the provider names it, and a fault of the provider at
/// any other.
pub proof fn statuses_mean_these_problems(status: u16, retry_after: Option<String>)
    ensures
        status_problem(401, retry_after) == HttpProblem::Auth,
        status_problem(403, retry_after) == HttpProblem::Auth,
        status_problem(429, retry_after) == (HttpProblem::RateLimit { retry_after }),
        status != 401 && status != 403 && status != 429 ==> status_problem(status, retry_after)
            == HttpProblem::Provider,
{
}

/// The text of a failed request names the provider, and behind it the endpoint;
/// it tells the status where the provider has answered, the time to wait where
/// one is named, and the reason where the fault is neither the token nor the
/// number of requests.
pub proof fn http_errors_tell_what_failed(e: ProviderHttpError)
    ensures
        crate::text::one_after_other(
            http_error_text(e),
            e.provider@,
            endpoint_text(e.endpoint),
        ),
        e.problem is UnexpectedFormat || e.problem is Network || e.problem is Provider
            ==> crate::text::contains_text(http_error_text(e), e.reason@),
        e.problem is Auth || e.problem is RateLimit || e.problem is UnexpectedFormat
            || e.problem is Provider ==> crate::text::contains_text(
            http_error_text(e),
            status_text(e.status),
        ),
        (e.problem matches HttpProblem::RateLimit { retry_after: Some(after) })
            ==> crate::text::contains_text(
            http_error_text(e),
            e.problem->retry_after->0@,
        ),
{
    let none = Seq::<char>::empty();
    let text = http_error_text(e);
    let name = e.provider@;
    let endpoint = endpoint_text(e.endpoint);
    let status = status_text(e.status);
    let (first, between, tail) = match e.problem {
        HttpProblem::Auth => (
            "Authentication failed for provider '"@,
            "' on "@,
            ". Check that the token exists, is not expired, and belongs to this provider."@,
        ),
        HttpProblem::RateLimit { retry_after } => (
            "Rate limit from provider '"@,
            "' on "@,
            match retry_after {
                Some(after) => ". Retry after "@ + after@ + "."@,
                None => ". Try again later."@,
            },
        ),
        HttpProblem::UnexpectedFormat => (
            "Provider '"@,
            "' returned an unexpected response format on "@,
            ": "@ + e.reason@,
        ),
        HttpProblem::Network => (
            "Network error while contacting provider '"@,
            "' on "@,
            ". Check DNS, TLS, proxy settings, and timeout: "@ + e.reason@,
        ),
        HttpProblem::Provider => ("Provider '"@, "' error on "@, ": "@ + e.reason@),
    };
    let middle = if e.problem is Network {
        " endpoint"@
    } else {
        " endpoint"@ + (" (status "@ + status + ")"@)
    };
    let head = first + name + between + endpoint;
    assert(text =~= first + name + between + endpoint + (middle + tail));
    crate::text::lemma_one_after_other(first, name, between, endpoint, middle + tail);
    if !(e.problem is Network) {
        assert(text =~= (head + " endpoint"@ + " (status "@) + status + (")"@ + tail));
        crate::text::lemma_part_occurs(
            head + " endpoint"@ + " (status "@,
            status,
            ")"@ + tail,
        );
    }
    if e.problem is UnexpectedFormat || e.problem is Provider {
        assert(text =~= (head + middle + ": "@) + e.reason@ + none);
        crate::text::lemma_part_occurs(head + middle + ": "@, e.reason@, none);
    }
    if e.problem is Network {
        let before = ". Check DNS, TLS, proxy settings, and timeout: "@;
        assert(text =~= (head + middle + before) + e.reason@ + none);
        crate::text::lemma_part_occurs(head + middle + before, e.reason@, none);
    }
    if let HttpProblem::RateLimit { retry_after: Some(after) } = e.problem {
        assert(text =~= (head + middle + ". Retry after "@) + after@ + "."@);
        crate::text::lemma_part_occurs(head + middle + ". Retry after "@, after@, "."@);
    }
}

/// The text of any other error tells what it is about.
pub proof fn errors_tell_what_they_are_about(e: AppError)
    ensures
        e matches AppError::Config { path, message } ==> crate::text::one_after_other(
            error_text(e),
            path@,
            message@,
        ),
        e matches AppError::ProfileMissing(name) ==> crate::text::contains_text(
            error_text(e),
            name@,
        ),
        e matches AppError::MissingToken { profile } ==> crate::text::contains_text(
            error_text(e),
            profile@,
        ),
        e matches AppError::InvalidBaseUrl { profile, url } ==> crate::text::one_after_other(
            error_text(e),
            profile@,
            url@,
        ),
        e matches AppError::Secret(message) ==> crate::text::contains_text(
            error_text(e),
            message@,
        ),
        e matches AppError::Terminal(message) ==> crate::text::contains_text(
            error_text(e),
            message@,
        ),
        e matches AppError::Json(message) ==> crate::text::contains_text(error_text(e), message@),
        e matches AppError::Toon(message) ==> crate::text::contains_text(error_text(e), message@),
        e matches AppError::Mcp(message) ==> crate::text::contains_text(error_text(e), message@),
        e matches AppError::UnsupportedProvider(name) ==> crate::text::contains_text(
            error_text(e),
            name@,
        ),
        e matches AppError::InvalidInput(message) ==> crate::text::contains_text(
            error_text(e),
            message@,
        ),
        e matches AppError::ProviderHttp(error) ==> error_text(e) == http_error_text(error),
{
    let none = Seq::<char>::empty();
    let text = error_text(e);
    match e {
        AppError::Config { path, message } => {
            crate::text::lemma_one_after_other("Config error at "@, path@, ": "@, message@, none);
            assert(text =~= "Config error at "@ + path@ + ": "@ + message@ + none);
        },
        AppError::ProfileMissing(name) => {
            crate::text::lemma_part_occurs("Profile '"@, name@, "' was not found"@);
        },
        AppError::MissingToken { profile } => {
            let after = "'. Run `ai-playground token set --profile "@ + profile@ + "`"@;
            crate::text::lemma_part_occurs("Token is missing for profile '"@, profile@, after);
            assert(text =~= "Token is missing for profile '"@ + profile@ + after);
        },
        AppError::InvalidBaseUrl { profile, url } => {
            crate::text::lemma_one_after_other(
                "Invalid base_url for profile '"@,
                profile@,
                "': "@,
                url@,
                none,
            );
            assert(text =~= "Invalid base_url for profile '"@ + profile@ + "': "@ + url@ + none);
        },
        AppError::Secret(message) => {
            crate::text::lemma_part_occurs("Secret storage error: "@, message@, none);
            assert(text =~= "Secret storage error: "@ + message@ + none);
        },
        AppError::Terminal(message) => {
            crate::text::lemma_part_occurs("Terminal I/O error: "@, message@, none);
            assert(text =~= "Terminal I/O error: "@ + message@ + none);
        },
        AppError::Json(message) => {
            let before = "Provider response has an unexpected JSON format: "@;
            crate::text::lemma_part_occurs(before, message@, none);
            assert(text =~= before + message@ + none);
        },
        AppError::Toon(message) => {
            crate::text::lemma_part_occurs("TOON error: "@, message@, none);
            assert(text =~= "TOON error: "@ + message@ + none);
        },
        AppError::Mcp(message) => {
            crate::text::lemma_part_occurs("MCP error: "@, message@, none);
            assert(text =~= "MCP error: "@ + message@ + none);
        },
        AppError::UnsupportedProvider(name) => {
            crate::text::lemma_part_occurs("Unsupported provider: "@, name@, none);
            assert(text =~= "Unsupported provider: "@ + name@ + none);
        },
        AppError::InvalidInput(message) => {
            crate::text::lemma_part_occurs("Invalid input: "@, message@, none);
            assert(text =~= "Invalid input: "@ + message@ + none);
        },
        AppError::NoActiveProfile => {},
        AppError::ProviderHttp(error) => {},
    }
}

} // verus!
