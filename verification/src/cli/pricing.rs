//! Where the prices of a request come from.
use vstd::prelude::*;

use crate::cli::args::PricingArgs;
use crate::errors::AppError;
use crate::pricing::PricingResolution;
use crate::providers::{ModelInfo, ModelPricing};
use crate::text::same;

verus! {

broadcast use vstd::string::group_string_axioms;

/// What is done next to find the prices of a request.
#[derive(Debug, PartialEq, Eq)]
pub enum PricingStep {
    /// The request has these prices, or none.
    Use(Option<ModelPricing>),
    /// The price catalog is synced where it is stale, and asked for the model.
    AskCatalog,
    /// The provider is asked for its models.
    AskProvider,
}

/// What is done first: the command line's own prices are used, and half of them
/// is an error; else the catalog is asked.
pub fn first_pricing_step(args: &PricingArgs) -> (r: Result<PricingStep, AppError>)
    ensures
        match (args.input_price_per_million, args.output_price_per_million) {
            (None, None) => r matches Ok(PricingStep::AskCatalog),
            (Some(input), Some(output)) => r matches Ok(PricingStep::Use(Some(p))) && p.currency
                == args.price_currency && p.input_per_million == Some(input)
                && p.output_per_million == output && p.cache_hit_input_per_million
                == args.cache_hit_input_price_per_million && p.cache_miss_input_per_million
                == args.cache_miss_input_price_per_million,
            _ => r matches Err(AppError::InvalidInput(message)) && message@
                == "Set both --input-price-per-million and --output-price-per-million to calculate request cost."@,
        },
{
    match args.model_pricing() {
        Ok(Some(pricing)) => Ok(PricingStep::Use(Some(pricing))),
        Ok(None) => Ok(PricingStep::AskCatalog),
        Err(error) => Err(error),
    }
}

/// What is done once the catalog was asked: its prices are used; else the
/// provider is asked, where there is a token to ask it with. A catalog that could
/// not be read has no prices.
pub fn after_catalog(
    resolved: Result<Option<PricingResolution>, AppError>,
    has_token: bool,
) -> (r: PricingStep)
    ensures
        r == (match resolved {
            Ok(Some(resolution)) => PricingStep::Use(Some(resolution.pricing)),
            _ => if has_token {
                PricingStep::AskProvider
            } else {
                PricingStep::Use(None)
            },
        }),
{
    match resolved {
        Ok(Some(resolution)) => PricingStep::Use(Some(resolution.pricing)),
        _ => {
            if has_token {
                PricingStep::AskProvider
            } else {
                PricingStep::Use(None)
            }
        },
    }
}

/// The first model with the identifier `id`, from `from` on.
pub open spec fn model_index(models: Seq<ModelInfo>, id: Seq<char>, from: int) -> Option<int>
    decreases models.len() - from,
{
    if from < 0 || from >= models.len() {
        None
    } else if models[from].id@ == id {
        Some(from)
    } else {
        model_index(models, id, from + 1)
    }
}

/// The prices of a model, from what its provider offers.
pub fn offered_pricing(models: &Vec<ModelInfo>, id: &str) -> (r: Option<ModelPricing>)
    ensures
        match model_index(models@, id@, 0) {
            Some(i) => r == models@[i].pricing,
            None => r is None,
        },
{
    let mut i: usize = 0;
    while i < models.len()
        invariant
            i <= models.len(),
            model_index(models@, id@, 0) == model_index(models@, id@, i as int),
        decreases models.len() - i,
    {
        if same(models[i].id.as_str(), id) {
            return match &models[i].pricing {
                Some(pricing) => Some(pricing.clone()),
                None => None,
            };
        }
        i = i + 1;
    }
    None
}

/// The prices of a model, from the answer of its provider; none where the
/// provider could not be asked.
pub fn after_listing(listing: &Result<Vec<ModelInfo>, AppError>, id: &str) -> (r: Option<
    ModelPricing,
>)
    ensures
        match *listing {
            Ok(models) => match model_index(models@, id@, 0) {
                Some(i) => r == models@[i].pricing,
                None => r is None,
            },
            Err(_) => r is None,
        },
{
    match listing {
        Ok(models) => offered_pricing(models, id),
        Err(_) => None,
    }
}

/// The first model of an identifier is the one that is meant.
pub proof fn the_first_model_is_meant(models: Seq<ModelInfo>, id: Seq<char>, from: int, k: int)
    requires
        0 <= from <= k <= models.len(),
        k < models.len() ==> models[k].id@ == id,
        forall|j: int| from <= j < k ==> (#[trigger] models[j]).id@ != id,
    ensures
        k < models.len() ==> model_index(models, id, from) == Some(k),
        k == models.len() ==> model_index(models, id, from) is None,
    decreases k - from,
{
    if from < k {
        assert(models[from].id@ != id);
        the_first_model_is_meant(models, id, from + 1, k);
    }
}

} // verus!
