//! OpenRouter.
use vstd::prelude::*;

use crate::providers::{AuthScheme, ProviderKind, ProviderSpec, StaticHeader};

verus! {

broadcast use vstd::string::group_string_axioms;

/// What is known of OpenRouter.
pub fn spec() -> (r: ProviderSpec)
    ensures
        crate::providers::describes(r, ProviderKind::OpenRouter),
{
    let r = ProviderSpec {
        kind: ProviderKind::OpenRouter,
        display_name: "OpenRouter",
        default_base_url: "https://openrouter.ai/api/v1",
        default_model: "openai/gpt-4.1-mini",
        auth_scheme: AuthScheme::Bearer,
        extra_headers: &[
            StaticHeader { name: "HTTP-Referer", value: "https://ai-playground.local" },
            StaticHeader { name: "X-Title", value: "ai-playground" },
        ],
        suggested_models: &[],
    };
    assert(crate::providers::header_texts(r.extra_headers@)
        =~= crate::providers::provider_headers(ProviderKind::OpenRouter));
    assert(crate::providers::literal_texts(r.suggested_models@)
        =~= crate::providers::provider_suggestions(ProviderKind::OpenRouter));
    r
}

} // verus!
