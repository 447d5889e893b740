//! Kimi.
use vstd::prelude::*;

use crate::providers::{AuthScheme, ProviderKind, ProviderSpec};

verus! {

broadcast use vstd::string::group_string_axioms;

/// What is known of Kimi.
pub fn spec() -> (r: ProviderSpec)
    ensures
        crate::providers::describes(r, ProviderKind::Kimi),
{
    let r = ProviderSpec {
        kind: ProviderKind::Kimi,
        display_name: "Kimi",
        default_base_url: "https://api.moonshot.ai/v1",
        default_model: "moonshot-v1-8k",
        auth_scheme: AuthScheme::Bearer,
        extra_headers: &[],
        suggested_models: &["moonshot-v1-8k", "moonshot-v1-32k", "moonshot-v1-128k"],
    };
    assert(crate::providers::header_texts(r.extra_headers@)
        =~= crate::providers::provider_headers(ProviderKind::Kimi));
    assert(crate::providers::literal_texts(r.suggested_models@)
        =~= crate::providers::provider_suggestions(ProviderKind::Kimi));
    r
}

} // verus!
