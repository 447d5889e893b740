//! The prices of models: a catalog that is fetched, kept for a day, and asked by
//! provider and model.
use vstd::prelude::*;

use crate::providers::{Float64, ModelPricing, ProviderKind};
use crate::text::{cat3, parse_u64, same, starts_with, to_ascii_lowercase, trim};
use crate::text_map::TextMap;

verus! {

broadcast use vstd::string::group_string_axioms;

/// Where the catalog is fetched.
pub const LITELLM_PRICE_CATALOG_URL: &'static str = "https://raw.githubusercontent.com/BerriAI/litellm/main/model_prices_and_context_window.json";

/// How long a fetched catalog is good: a day, in seconds.
pub const PRICE_CACHE_TTL: u64 = 86_400;

/// Where a price comes from.
#[derive(Debug, Clone, Copy, PartialEq, Eq, Structural)]
pub enum PriceSource {
    LiteLlmCatalog,
    ProviderModelsApi,
    ManualOverride,
}

impl PriceSource {
    /// The name of the source.
    pub fn name(&self) -> (r: &'static str)
        ensures
            r@ == (match *self {
                PriceSource::LiteLlmCatalog => "litellm-catalog"@,
                PriceSource::ProviderModelsApi => "provider-models-api"@,
                PriceSource::ManualOverride => "manual-override"@,
            }),
    {
        match self {
            PriceSource::LiteLlmCatalog => "litellm-catalog",
            PriceSource::ProviderModelsApi => "provider-models-api",
            PriceSource::ManualOverride => "manual-override",
        }
    }
}

/// A price that was found.
#[derive(Debug, PartialEq, Eq)]
pub struct PricingResolution {
    pub pricing: ModelPricing,
    pub source: PriceSource,
    pub source_url: String,
    pub fetched_at_unix: u64,
    pub stale: bool,
    pub matched_model: String,
    pub context_length: Option<u64>,
}

/// A whole number as a catalog writes it.
#[derive(Debug, PartialEq, Eq)]
pub enum CatalogNumber {
    Integer(u64),
    Text(String),
    Other,
}

/// The number that a catalog writes.
pub open spec fn catalog_value(number: CatalogNumber) -> Option<u64> {
    match number {
        CatalogNumber::Integer(n) => Some(n),
        CatalogNumber::Text(text) => match crate::text::number_in(text@, u64::MAX as nat) {
            Some(n) => Some(n as u64),
            None => None,
        },
        CatalogNumber::Other => None,
    }
}

/// The number that a catalog writes.
pub fn parse_u64_value(number: &CatalogNumber) -> (r: Option<u64>)
    ensures
        r == catalog_value(*number),
{
    match number {
        CatalogNumber::Integer(n) => Some(*n),
        CatalogNumber::Text(text) => parse_u64(text.as_str()),
        CatalogNumber::Other => None,
    }
}

/// A model of the catalog. Prices are per million tokens, where the catalog
/// writes a number.
#[derive(Debug, PartialEq, Eq)]
pub struct CatalogEntry {
    pub litellm_provider: Option<String>,
    pub input_per_million: Option<Float64>,
    pub output_per_million: Option<Float64>,
    pub cache_read_per_million: Option<Float64>,
    pub cache_creation_per_million: Option<Float64>,
    pub max_input_tokens: Option<CatalogNumber>,
    pub max_tokens: Option<CatalogNumber>,
    pub source: Option<String>,
}

/// A catalog that was fetched.
#[derive(Debug, PartialEq, Eq)]
pub struct PriceCache {
    pub fetched_at_unix: u64,
    pub source_url: String,
    pub entries: TextMap<CatalogEntry>,
}

/// Whether a catalog is too old.
pub open spec fn outdated(fetched_at_unix: u64, now: u64, ttl: u64) -> bool {
    now - fetched_at_unix > ttl
}

/// Whether a catalog is too old.
pub fn is_stale(fetched_at_unix: u64, now: u64, ttl: u64) -> (r: bool)
    ensures
        r == outdated(fetched_at_unix, now, ttl),
{
    now.saturating_sub(fetched_at_unix) > ttl
}

/// What the catalog calls a provider.
pub open spec fn catalog_names(provider: ProviderKind) -> Seq<Seq<char>> {
    match provider {
        ProviderKind::OpenAiCompatible => seq!["openai"@],
        ProviderKind::OpenRouter => Seq::empty(),
        ProviderKind::DeepSeek => seq![
            "deepseek"@,
            "deepseek-ai"@,
            "deepseek-chat"@,
            "deepseek-reasoner"@,
        ],
        ProviderKind::GigaChat => seq!["gigachat"@],
        ProviderKind::Kimi => seq!["moonshot"@, "kimi"@],
    }
}

/// What the catalog calls a provider.
pub fn provider_prefixes(provider: ProviderKind) -> (r: &'static [&'static str])
    ensures
        crate::providers::literal_texts(r@) == catalog_names(provider),
{
    let r: &'static [&'static str] = match provider {
        ProviderKind::OpenAiCompatible => &["openai"],
        ProviderKind::OpenRouter => &[],
        ProviderKind::DeepSeek => &[
            "deepseek",
            "deepseek-ai",
            "deepseek-chat",
            "deepseek-reasoner",
        ],
        ProviderKind::GigaChat => &["gigachat"],
        ProviderKind::Kimi => &["moonshot", "kimi"],
    };
    assert(crate::providers::literal_texts(r@) =~= catalog_names(provider));
    r
}

/// The names under which the catalog may hold a model.
pub open spec fn candidate_names(provider: ProviderKind, model: Seq<char>) -> Seq<Seq<char>> {
    let names = catalog_names(provider);
    seq![model] + Seq::new(names.len(), |i: int| names[i] + "/"@ + model)
}

/// The texts without those that stand before already.
pub open spec fn first_ones(s: Seq<Seq<char>>) -> Seq<Seq<char>>
    decreases s.len(),
{
    if s.len() == 0 {
        Seq::empty()
    } else {
        let rest = first_ones(s.drop_last());
        if rest.contains(s.last()) {
            rest
        } else {
            rest.push(s.last())
        }
    }
}

fn holds(values: &Vec<String>, value: &str) -> (r: bool)
    ensures
        r == crate::text::texts(values@).contains(value@),
{
    let mut i: usize = 0;
    while i < values.len()
        invariant
            i <= values.len(),
            forall|j: int| 0 <= j < i ==> (#[trigger] values@[j])@ != value@,
        decreases values.len() - i,
    {
        if same(values[i].as_str(), value) {
            assert(crate::text::texts(values@)[i as int] == value@);
            return true;
        }
        i = i + 1;
    }
    proof {
        if crate::text::texts(values@).contains(value@) {
            let k = crate::text::texts(values@).index_of(value@);
            assert(values@[k]@ == value@);
        }
    }
    false
}

fn dedupe(values: Vec<String>) -> (r: Vec<String>)
    ensures
        crate::text::texts(r@) == first_ones(crate::text::texts(values@)),
{
    let ghost all = crate::text::texts(values@);
    let mut out: Vec<String> = Vec::new();
    let mut i: usize = 0;
    assert(all.take(0) =~= Seq::<Seq<char>>::empty());
    assert(crate::text::texts(out@) =~= Seq::<Seq<char>>::empty());
    while i < values.len()
        invariant
            i <= values.len(),
            all == crate::text::texts(values@),
            crate::text::texts(out@) == first_ones(all.take(i as int)),
        decreases values.len() - i,
    {
        assert(all.take(i + 1).drop_last() =~= all.take(i as int));
        if !holds(&out, values[i].as_str()) {
            let ghost before = crate::text::texts(out@);
            out.push(values[i].clone());
            assert(crate::text::texts(out@) =~= before.push(all[i as int]));
        }
        i = i + 1;
    }
    assert(all.take(i as int) =~= all);
    out
}

/// The names under which the catalog may hold a model, each once.
pub fn model_candidates(provider: ProviderKind, model: &str) -> (r: Vec<String>)
    ensures
        crate::text::texts(r@) == first_ones(candidate_names(provider, model@)),
{
    let prefixes = provider_prefixes(provider);
    let ghost names = catalog_names(provider);
    let mut out: Vec<String> = Vec::new();
    out.push(model.to_string());
    let mut i: usize = 0;
    while i < prefixes.len()
        invariant
            i <= prefixes.len(),
            crate::providers::literal_texts(prefixes@) == names,
            names == catalog_names(provider),
            out@.len() == i + 1,
            out@[0]@ == model@,
            forall|j: int|
                0 <= j < i ==> #[trigger] crate::text::texts(out@)[j + 1] == names[j] + "/"@
                    + model@,
        decreases prefixes.len() - i,
    {
        assert(names[i as int] == prefixes@[i as int]@);
        let ghost before = crate::text::texts(out@);
        out.push(cat3(prefixes[i], "/", model));
        assert forall|j: int| 0 <= j < i + 1 implies #[trigger] crate::text::texts(out@)[j + 1]
            == names[j] + "/"@ + model@ by {
            if j < i {
                assert(crate::text::texts(out@)[j + 1] == before[j + 1]);
            }
        }
        i = i + 1;
    }
    proof {
        let all = crate::text::texts(out@);
        let want = candidate_names(provider, model@);
        assert(crate::providers::literal_texts(prefixes@).len() == prefixes@.len());
        assert forall|k: int| 0 <= k < all.len() implies all[k] == want[k] by {
            if k > 0 {
                assert(all[(k - 1) + 1] == names[k - 1] + "/"@ + model@);
            }
        }
        assert(all =~= want);
    }
    dedupe(out)
}

/// Whether an entry of the catalog belongs to a provider: one without a provider
/// belongs to any.
pub open spec fn belongs(provider: ProviderKind, entry: CatalogEntry) -> bool {
    match entry.litellm_provider {
        None => true,
        Some(name) => {
            let lower = crate::text::ascii_lower(name@);
            ||| provider == ProviderKind::DeepSeek && crate::text::occurs_at(
                lower,
                "deepseek"@,
                0,
            )
            ||| catalog_names(provider).contains(name@)
        },
    }
}

/// Whether an entry of the catalog belongs to a provider.
pub fn provider_matches(provider: ProviderKind, entry: &CatalogEntry) -> (r: bool)
    ensures
        r == belongs(provider, *entry),
{
    let name = match &entry.litellm_provider {
        Some(name) => name.as_str(),
        None => {
            return true;
        },
    };
    if provider == ProviderKind::DeepSeek {
        let lower = to_ascii_lowercase(name);
        if starts_with(lower.as_str(), "deepseek") {
            return true;
        }
    }
    let prefixes = provider_prefixes(provider);
    let ghost names = catalog_names(provider);
    let mut i: usize = 0;
    while i < prefixes.len()
        invariant
            i <= prefixes.len(),
            names == catalog_names(provider),
            crate::providers::literal_texts(prefixes@) == names,
            entry.litellm_provider matches Some(n) && n@ == name@,
            forall|j: int| 0 <= j < i ==> #[trigger] names[j] != name@,
        decreases prefixes.len() - i,
    {
        assert(names[i as int] == prefixes@[i as int]@);
        if same(prefixes[i], name) {
            assert(names.contains(name@));
            return true;
        }
        i = i + 1;
    }
    proof {
        assert(names.len() == prefixes@.len());
        if names.contains(name@) {
            let k = names.index_of(name@);
            assert(names[k] == name@);
        }
    }
    false
}

/// Whether prices are those of an entry: one without a price of the output has
/// none.
pub open spec fn priced(entry: CatalogEntry, r: Option<ModelPricing>) -> bool {
    match entry.output_per_million {
        None => r is None,
        Some(output) => r matches Some(p) && p.currency@ == "USD"@ && p.input_per_million
            == entry.input_per_million && p.output_per_million == output
            && p.cache_hit_input_per_million == entry.cache_read_per_million
            && p.cache_miss_input_per_million == entry.cache_creation_per_million,
    }
}

/// The prices of an entry.
pub fn pricing_from_entry(entry: &CatalogEntry) -> (r: Option<ModelPricing>)
    ensures
        priced(*entry, r),
{
    match entry.output_per_million {
        Some(output_per_million) => Some(
            ModelPricing {
                currency: "USD".to_string(),
                input_per_million: entry.input_per_million,
                output_per_million,
                cache_hit_input_per_million: entry.cache_read_per_million,
                cache_miss_input_per_million: entry.cache_creation_per_million,
            },
        ),
        None => None,
    }
}

/// How many tokens a model takes in: the limit of its input, else its limit.
pub open spec fn context_of(entry: CatalogEntry) -> Option<u64> {
    let own = match entry.max_input_tokens {
        Some(number) => catalog_value(number),
        None => None,
    };
    if own is Some {
        own
    } else {
        match entry.max_tokens {
            Some(number) => catalog_value(number),
            None => None,
        }
    }
}

fn context_length(entry: &CatalogEntry) -> (r: Option<u64>)
    ensures
        r == context_of(*entry),
{
    if let Some(number) = &entry.max_input_tokens {
        if let Some(n) = parse_u64_value(number) {
            return Some(n);
        }
    }
    match &entry.max_tokens {
        Some(number) => parse_u64_value(number),
        None => None,
    }
}

/// The first name, from `from` on, under which the catalog holds an entry of the
/// provider.
pub open spec fn match_index(
    entries: Map<Seq<char>, CatalogEntry>,
    provider: ProviderKind,
    names: Seq<Seq<char>>,
    from: int,
) -> Option<int>
    decreases names.len() - from,
{
    if from < 0 || from >= names.len() {
        None
    } else if entries.dom().contains(names[from]) && belongs(provider, entries[names[from]]) {
        Some(from)
    } else {
        match_index(entries, provider, names, from + 1)
    }
}

/// Whether a price is what the catalog says of a model.
pub open spec fn resolved(
    cache: PriceCache,
    provider: ProviderKind,
    model: Seq<char>,
    ttl: u64,
    now: u64,
    r: Option<PricingResolution>,
) -> bool {
    let names = first_ones(candidate_names(provider, crate::text::trimmed(model)));
    match match_index(cache.entries.map(), provider, names, 0) {
        None => r is None,
        Some(i) => {
            let entry = cache.entries.map()[names[i]];
            match r {
                None => entry.output_per_million is None,
                Some(found) => {
                    &&& priced(entry, Some(found.pricing))
                    &&& found.source == PriceSource::LiteLlmCatalog
                    &&& found.source_url@ == (match entry.source {
                        Some(source) => source@,
                        None => cache.source_url@,
                    })
                    &&& found.fetched_at_unix == cache.fetched_at_unix
                    &&& found.stale == outdated(cache.fetched_at_unix, now, ttl)
                    &&& found.matched_model@ == names[i]
                    &&& found.context_length == context_of(entry)
                },
            }
        },
    }
}

/// What the catalog says of a model: the first of its names under which the
/// catalog holds an entry of the provider decides.
pub fn resolve_from_cache(
    cache: &PriceCache,
    provider: ProviderKind,
    model: &str,
    ttl: u64,
    now: u64,
) -> (r: Option<PricingResolution>)
    ensures
        resolved(*cache, provider, model@, ttl, now, r),
{
    let candidates = model_candidates(provider, trim(model));
    let ghost names = first_ones(candidate_names(provider, crate::text::trimmed(model@)));
    let ghost entries = cache.entries.map();
    let mut i: usize = 0;
    while i < candidates.len()
        invariant
            i <= candidates.len(),
            entries == cache.entries.map(),
            names == first_ones(candidate_names(provider, crate::text::trimmed(model@))),
            crate::text::texts(candidates@) == names,
            match_index(entries, provider, names, 0) == match_index(
                entries,
                provider,
                names,
                i as int,
            ),
        decreases candidates.len() - i,
    {
        assert(names[i as int] == candidates@[i as int]@);
        if let Some(entry) = cache.entries.get(candidates[i].as_str()) {
            if provider_matches(provider, entry) {
                let pricing = match pricing_from_entry(entry) {
                    Some(pricing) => pricing,
                    None => {
                        return None;
                    },
                };
                let source_url = match &entry.source {
                    Some(source) => source.clone(),
                    None => cache.source_url.clone(),
                };
                return Some(
                    PricingResolution {
                        pricing,
                        source: PriceSource::LiteLlmCatalog,
                        source_url,
                        fetched_at_unix: cache.fetched_at_unix,
                        stale: is_stale(cache.fetched_at_unix, now, ttl),
                        matched_model: candidates[i].clone(),
                        context_length: context_length(entry),
                    },
                );
            }
        }
        i = i + 1;
    }
    assert(crate::text::texts(candidates@).len() == candidates@.len());
    None
}

/// A price that is found is one of the provider's own: an entry of another
/// provider is never taken.
pub proof fn price_belongs_to_the_provider(
    cache: PriceCache,
    provider: ProviderKind,
    model: Seq<char>,
    ttl: u64,
    now: u64,
    found: PricingResolution,
)
    requires
        resolved(cache, provider, model, ttl, now, Some(found)),
    ensures
        cache.entries.map().dom().contains(found.matched_model@),
        belongs(provider, cache.entries.map()[found.matched_model@]),
        priced(cache.entries.map()[found.matched_model@], Some(found.pricing)),
{
    let names = first_ones(candidate_names(provider, crate::text::trimmed(model)));
    lemma_match(cache.entries.map(), provider, names, 0);
}

proof fn lemma_match(
    entries: Map<Seq<char>, CatalogEntry>,
    provider: ProviderKind,
    names: Seq<Seq<char>>,
    from: int,
)
    requires
        0 <= from,
    ensures
        match_index(entries, provider, names, from) matches Some(i) ==> from <= i < names.len()
            && entries.dom().contains(names[i]) && belongs(provider, entries[names[i]]),
    decreases names.len() - from,
{
    if from < names.len() {
        lemma_match(entries, provider, names, from + 1);
    }
}

/// What is known of the catalog on disk.
#[derive(Debug, PartialEq, Eq)]
pub struct PriceCatalogStatus {
    pub path: String,
    pub exists: bool,
    pub fetched_at_unix: Option<u64>,
    pub stale: bool,
    pub source_url: String,
    pub model_count: usize,
}

/// The catalog of prices, kept in a file.
#[derive(Debug, PartialEq, Eq)]
pub struct LiteLlmPriceCatalog {
    path: String,
    ttl: u64,
}

impl LiteLlmPriceCatalog {
    /// The file of the catalog.
    pub closed spec fn file(&self) -> Seq<char> {
        self.path@
    }

    /// How long a fetched catalog is good.
    pub closed spec fn good_for(&self) -> u64 {
        self.ttl
    }

    /// The catalog in a file.
    pub fn with_path(path: String) -> (r: Self)
        ensures
            r.file() == path@,
            r.good_for() == PRICE_CACHE_TTL,
    {
        LiteLlmPriceCatalog { path, ttl: PRICE_CACHE_TTL }
    }

    /// The file of the catalog.
    pub fn path(&self) -> (r: &str)
        ensures
            r@ == self.file(),
    {
        self.path.as_str()
    }

    /// What is known of the catalog, from whether its file exists and what could
    /// be read of it. A catalog that cannot be read is too old.
    pub fn status(&self, exists: bool, cache: Option<&PriceCache>, now: u64) -> (r:
        PriceCatalogStatus)
        ensures
            r.path@ == self.file(),
            r.exists == exists,
            r.fetched_at_unix == (match cache {
                Some(cache) => Some(cache.fetched_at_unix),
                None => None,
            }),
            r.stale == (match cache {
                Some(cache) => outdated(cache.fetched_at_unix, now, self.good_for()),
                None => true,
            }),
            r.source_url@ == LITELLM_PRICE_CATALOG_URL@,
            r.model_count == (match cache {
                Some(cache) => cache.entries@.len(),
                None => 0,
            }),
    {
        let (fetched_at_unix, stale, model_count) = match cache {
            Some(cache) => (
                Some(cache.fetched_at_unix),
                is_stale(cache.fetched_at_unix, now, self.ttl),
                cache.entries.len(),
            ),
            None => (None, true, 0),
        };
        PriceCatalogStatus {
            path: self.path.clone(),
            exists,
            fetched_at_unix,
            stale,
            source_url: LITELLM_PRICE_CATALOG_URL.to_string(),
            model_count,
        }
    }

    /// What the catalog says of a model.
    pub fn resolve(&self, cache: &PriceCache, provider: ProviderKind, model: &str, now: u64) -> (r:
        Option<PricingResolution>)
        ensures
            resolved(*cache, provider, model@, self.good_for(), now, r),
    {
        resolve_from_cache(cache, provider, model, self.ttl, now)
    }

    /// The catalog as it was fetched, to be kept.
    pub fn fetched(entries: TextMap<CatalogEntry>, now: u64) -> (r: PriceCache)
        ensures
            r.fetched_at_unix == now,
            r.source_url@ == LITELLM_PRICE_CATALOG_URL@,
            r.entries == entries,
    {
        PriceCache {
            fetched_at_unix: now,
            source_url: LITELLM_PRICE_CATALOG_URL.to_string(),
            entries,
        }
    }
}

/// A catalog is good for its time from the moment it was fetched, that moment and
/// the last one included, and once it is too old it stays so.
pub proof fn a_catalog_grows_old_once(fetched_at_unix: u64, now: u64, later: u64, ttl: u64)
    requires
        now <= later,
    ensures
        !outdated(fetched_at_unix, fetched_at_unix, ttl),
        now == fetched_at_unix + ttl ==> !outdated(fetched_at_unix, now, ttl),
        now == fetched_at_unix + ttl + 1 ==> outdated(fetched_at_unix, now, ttl),
        outdated(fetched_at_unix, now, ttl) ==> outdated(fetched_at_unix, later, ttl),
{
}

/// A model is looked for by its own name before any other; every other name is
/// one of the provider, a slash, and that name.
pub proof fn the_plain_name_comes_first(provider: ProviderKind, model: Seq<char>, i: int)
    requires
        0 < i < candidate_names(provider, model).len(),
    ensures
        candidate_names(provider, model)[0] == model,
        exists|name: Seq<char>|
            catalog_names(provider).contains(name) && #[trigger] (name + "/"@ + model)
                == candidate_names(provider, model)[i],
{
    let name = catalog_names(provider)[i - 1];
    assert(catalog_names(provider).contains(name));
    assert(candidate_names(provider, model)[i] == name + "/"@ + model);
}

/// The names under which the catalog lists a provider's models.
pub proof fn providers_are_listed_as(name: Seq<char>)
    ensures
        catalog_names(ProviderKind::OpenAiCompatible).contains(name) == (name == "openai"@),
        !catalog_names(ProviderKind::OpenRouter).contains(name),
        catalog_names(ProviderKind::DeepSeek).contains(name) == (name == "deepseek"@ || name
            == "deepseek-ai"@ || name == "deepseek-chat"@ || name == "deepseek-reasoner"@),
        catalog_names(ProviderKind::GigaChat).contains(name) == (name == "gigachat"@),
        catalog_names(ProviderKind::Kimi).contains(name) == (name == "moonshot"@ || name
            == "kimi"@),
{
    let a = catalog_names(ProviderKind::OpenAiCompatible);
    let b = catalog_names(ProviderKind::DeepSeek);
    let c = catalog_names(ProviderKind::GigaChat);
    let d = catalog_names(ProviderKind::Kimi);
    assert(a[0] == "openai"@);
    assert(b[0] == "deepseek"@ && b[1] == "deepseek-ai"@ && b[2] == "deepseek-chat"@ && b[3]
        == "deepseek-reasoner"@);
    assert(c[0] == "gigachat"@);
    assert(d[0] == "moonshot"@ && d[1] == "kimi"@);
}

/// An entry that names no provider is anyone's; one that names a provider is that
/// provider's alone, but for those of DeepSeek, which are told by how the name
/// begins.
pub proof fn entries_belong_to_their_provider(provider: ProviderKind, entry: CatalogEntry)
    ensures
        entry.litellm_provider is None ==> belongs(provider, entry),
        provider != ProviderKind::DeepSeek && (entry.litellm_provider matches Some(name))
            ==> belongs(provider, entry) == catalog_names(provider).contains(
            entry.litellm_provider->0@,
        ),
        provider == ProviderKind::DeepSeek && (entry.litellm_provider matches Some(name)) && belongs(
            provider,
            entry,
        ) ==> crate::text::occurs_at(
            crate::text::ascii_lower(entry.litellm_provider->0@),
            "deepseek"@,
            0,
        ),
        provider == ProviderKind::DeepSeek && (entry.litellm_provider matches Some(name))
            && crate::text::occurs_at(
            crate::text::ascii_lower(entry.litellm_provider->0@),
            "deepseek"@,
            0,
        ) ==> belongs(provider, entry),
{
    if let Some(name) = entry.litellm_provider {
        if catalog_names(ProviderKind::DeepSeek).contains(name@) {
            providers_are_listed_as(name@);
            reveal_strlit("deepseek");
            reveal_strlit("deepseek-ai");
            reveal_strlit("deepseek-chat");
            reveal_strlit("deepseek-reasoner");
            let lower = crate::text::ascii_lower(name@);
            assert(lower.subrange(0, 8) =~= "deepseek"@);
        }
    }
}

proof fn lemma_first_ones(s: Seq<Seq<char>>, text: Seq<char>)
    ensures
        first_ones(s).contains(text) == s.contains(text),
    decreases s.len(),
{
    if s.len() > 0 {
        let rest = s.drop_last();
        let kept = first_ones(rest);
        lemma_first_ones(rest, text);
        if s.contains(text) {
            let i = choose|i: int| 0 <= i < s.len() && s[i] == text;
            if i < rest.len() {
                assert(rest[i] == text);
            }
        }
        if rest.contains(text) {
            let i = choose|i: int| 0 <= i < rest.len() && rest[i] == text;
            assert(s[i] == text);
        }
        if !kept.contains(s.last()) {
            let more = kept.push(s.last());
            if kept.contains(text) {
                let i = choose|i: int| 0 <= i < kept.len() && kept[i] == text;
                assert(more[i] == text);
            }
            if text == s.last() {
                assert(more[kept.len() as int] == text);
                assert(s[s.len() - 1] == text);
            }
            if more.contains(text) && !kept.contains(text) {
                let i = choose|i: int| 0 <= i < more.len() && more[i] == text;
                if i < kept.len() {
                    assert(kept[i] == text);
                }
                assert(s[s.len() - 1] == text);
            }
        }
    }
}

proof fn lemma_first_stays_first(s: Seq<Seq<char>>)
    requires
        s.len() > 0,
    ensures
        first_ones(s).len() > 0,
        first_ones(s)[0] == s[0],
    decreases s.len(),
{
    if s.len() > 1 {
        lemma_first_stays_first(s.drop_last());
    } else {
        assert(first_ones(s.drop_last()) =~= Seq::<Seq<char>>::empty());
    }
}

/// Where the catalog has an entry under the very name of a model, of its provider
/// and with a price of the output, that entry tells the price: all its prices in
/// dollars, the context of the input before that of the whole, and how old it is.
pub proof fn the_models_own_entry_tells_its_price(
    cache: PriceCache,
    provider: ProviderKind,
    model: Seq<char>,
    ttl: u64,
    now: u64,
    r: Option<PricingResolution>,
)
    requires
        resolved(cache, provider, model, ttl, now, r),
        cache.entries.map().contains_key(crate::text::trimmed(model)),
        belongs(provider, cache.entries.map()[crate::text::trimmed(model)]),
        cache.entries.map()[crate::text::trimmed(model)].output_per_million is Some,
    ensures
        ({
            let entry = cache.entries.map()[crate::text::trimmed(model)];
            &&& r is Some
            &&& r->0.matched_model@ == crate::text::trimmed(model)
            &&& Some(r->0.pricing.output_per_million) == entry.output_per_million
            &&& r->0.pricing.input_per_million == entry.input_per_million
            &&& r->0.pricing.cache_hit_input_per_million == entry.cache_read_per_million
            &&& r->0.pricing.cache_miss_input_per_million == entry.cache_creation_per_million
            &&& r->0.pricing.currency@ == "USD"@
            &&& r->0.fetched_at_unix == cache.fetched_at_unix
            &&& r->0.stale == (now > cache.fetched_at_unix + ttl)
            &&& (entry.max_input_tokens matches Some(CatalogNumber::Integer(n)))
                ==> r->0.context_length == Some(entry.max_input_tokens->0->Integer_0)
            &&& entry.max_input_tokens is None && (entry.max_tokens matches Some(
                CatalogNumber::Integer(n),
            )) ==> r->0.context_length == Some(entry.max_tokens->0->Integer_0)
        }),
{
    let name = crate::text::trimmed(model);
    let names = first_ones(candidate_names(provider, name));
    lemma_first_stays_first(candidate_names(provider, name));
    assert(names[0] == name);
    assert(match_index(cache.entries.map(), provider, names, 0) == Some(0int));
}

/// A price is found where any of a model's names has an entry of the provider
/// that charges for the output; where none of them has an entry of the provider,
/// none is.
pub proof fn prices_are_found_by_any_name(
    cache: PriceCache,
    provider: ProviderKind,
    model: Seq<char>,
    ttl: u64,
    now: u64,
    r: Option<PricingResolution>,
)
    requires
        resolved(cache, provider, model, ttl, now, r),
    ensures
        r matches Some(found) ==> candidate_names(provider, crate::text::trimmed(model)).contains(
            found.matched_model@,
        ),
        (forall|i: int|
            0 <= i < candidate_names(provider, crate::text::trimmed(model)).len()
                ==> !cache.entries.map().contains_key(
                #[trigger] candidate_names(provider, crate::text::trimmed(model))[i],
            )) ==> r is None,
{
    let all = candidate_names(provider, crate::text::trimmed(model));
    let names = first_ones(all);
    lemma_match(cache.entries.map(), provider, names, 0);
    if let Some(i) = match_index(cache.entries.map(), provider, names, 0) {
        assert(names.contains(names[i]));
        lemma_first_ones(all, names[i]);
        let k = choose|k: int| 0 <= k < all.len() && all[k] == names[i];
        assert(cache.entries.map().contains_key(all[k]));
    }
}

} // verus!
