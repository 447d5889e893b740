//! DeepSeek.
use vstd::prelude::*;

use crate::providers::{AuthScheme, ProviderKind, ProviderSpec};

verus! {

broadcast use vstd::string::group_string_axioms;

/// What is known of DeepSeek.
pub fn spec() -> (r: ProviderSpec)
    ensures
        crate::providers::describes(r, ProviderKind::DeepSeek),
{
    let r = ProviderSpec {
        kind: ProviderKind::DeepSeek,
        display_name: "DeepSeek",
        default_base_url: "https://api.deepseek.com/v1",
        default_model: "deepseek-chat",
        auth_scheme: AuthScheme::Bearer,
        extra_headers: &[],
        suggested_models: &["deepseek-chat", "deepseek-reasoner"],
    };
    assert(crate::providers::header_texts(r.extra_headers@)
        =~= crate::providers::provider_headers(ProviderKind::DeepSeek));
    assert(crate::providers::literal_texts(r.suggested_models@)
        =~= crate::providers::provider_suggestions(ProviderKind::DeepSeek));
    r
}

} // verus!
