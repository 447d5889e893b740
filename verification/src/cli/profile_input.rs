//! The menus from which a profile is put together or chosen.
use vstd::prelude::*;

use crate::config::{token_ref, AppConfig, ProfileConfig};
use crate::errors::AppError;
use crate::providers::ProviderKind;
use crate::text::{
    cat3, cat5, is_blank, join, number_text, parse_usize, same,
    same_ignoring_ascii_case, trim,
};

verus! {

broadcast use vstd::string::group_string_axioms;

/// A profile that was put together.
#[derive(Debug, PartialEq, Eq)]
pub struct CollectedProfile {
    pub name: String,
    pub config: ProfileConfig,
    pub token_saved: bool,
}

/// The place in a list of `len` entries that a typed number names; the first is
/// one, and zero names the first as well.
pub open spec fn place(raw: Seq<char>, len: nat) -> Option<int> {
    match crate::text::number_in(raw, usize::MAX as nat) {
        Some(n) => {
            let i = if n == 0 {
                0
            } else {
                n - 1
            };
            if i < len {
                Some(i)
            } else {
                None
            }
        },
        None => None,
    }
}

fn place_in(raw: &str, len: usize) -> (r: Option<usize>)
    ensures
        match r {
            Some(i) => place(raw@, len as nat) == Some(i as int) && i < len,
            None => place(raw@, len as nat) is None,
        },
{
    match parse_usize(raw) {
        Some(n) => {
            let i: usize = n.saturating_sub(1);
            if i < len {
                Some(i)
            } else {
                None
            }
        },
        None => None,
    }
}

/// The provider that is chosen: nothing means the recommended one, a number its
/// place in the list, anything else its name.
pub open spec fn provider_choice(raw: Seq<char>) -> Option<ProviderKind> {
    if crate::text::blank(raw) {
        Some(ProviderKind::OpenRouter)
    } else {
        match place(raw, crate::providers::all_providers().len()) {
            Some(i) => Some(crate::providers::all_providers()[i]),
            None => crate::providers::provider_named(crate::text::ascii_lower(raw)),
        }
    }
}

/// The provider that is chosen; none where what was typed names none.
pub fn choose_provider(raw: &str) -> (r: Option<ProviderKind>)
    ensures
        r == provider_choice(raw@),
{
    if is_blank(raw) {
        return Some(ProviderKind::OpenRouter);
    }
    let all = ProviderKind::all();
    if let Some(i) = place_in(raw, all.len()) {
        return Some(all[i]);
    }
    match ProviderKind::parse(raw) {
        Ok(kind) => Some(kind),
        Err(_) => None,
    }
}

/// The line of a provider in the menu.
pub open spec fn provider_line_of(place: int, kind: ProviderKind) -> Seq<char> {
    "  "@ + crate::text::decimal(place as nat) + ". "@
        + crate::providers::provider_display_name(kind) + " ("@
        + crate::providers::provider_name(kind) + ") - default model: "@
        + crate::providers::provider_model(kind) + (if kind == ProviderKind::OpenRouter {
        " recommended"@
    } else {
        Seq::<char>::empty()
    })
}

/// The line of a provider in the menu, at its place.
pub fn provider_line(place: u64, kind: ProviderKind) -> (r: String)
    ensures
        r@ == provider_line_of(place as int, kind),
{
    let spec = kind.spec();
    let number = number_text(place);
    let head = cat5("  ", number.as_str(), ". ", spec.display_name, " (");
    let tail = cat3(kind.name(), ") - default model: ", spec.default_model);
    let recommended = if kind == ProviderKind::OpenRouter {
        " recommended"
    } else {
        ""
    };
    proof {
        reveal_strlit("");
        assert(""@ =~= Seq::<char>::empty());
    }
    let line = cat3(head.as_str(), tail.as_str(), recommended);
    assert(line@ =~= provider_line_of(place as int, kind));
    line
}

/// What is chosen at the menu of models.
#[derive(Debug, PartialEq, Eq)]
pub enum ModelChoice {
    /// This model.
    Use(String),
    /// A model whose identifier is still to be asked for.
    AskCustom,
}

/// Whether a choice is what was typed: nothing means the default, a number a
/// place in the list, `custom` another identifier, anything else is one.
pub open spec fn chooses_model(
    raw: Seq<char>,
    models: Seq<String>,
    default: Seq<char>,
    r: ModelChoice,
) -> bool {
    if crate::text::blank(raw) {
        r matches ModelChoice::Use(m) && m@ == default
    } else {
        match place(raw, models.len()) {
            Some(i) => r matches ModelChoice::Use(m) && m@ == models[i]@,
            None => if crate::text::ascii_lower(raw) == crate::text::ascii_lower("custom"@) {
                r is AskCustom
            } else {
                r matches ModelChoice::Use(m) && m@ == raw
            },
        }
    }
}

/// The model that is chosen.
pub fn choose_model(raw: &str, models: &Vec<String>, default: &str) -> (r: ModelChoice)
    ensures
        chooses_model(raw@, models@, default@, r),
{
    if is_blank(raw) {
        return ModelChoice::Use(default.to_string());
    }
    if let Some(i) = place_in(raw, models.len()) {
        return ModelChoice::Use(models[i].clone());
    }
    if same_ignoring_ascii_case(raw, "custom") {
        return ModelChoice::AskCustom;
    }
    ModelChoice::Use(raw.to_string())
}

/// The line of a model in the menu, at its place.
pub fn model_line(place: u64, model: &str, default: &str) -> (r: String)
    ensures
        r@ == "  "@ + crate::text::decimal(place as nat) + ". "@ + model@ + (if model@ == default@ {
            " default"@
        } else {
            ""@
        }),
{
    let number = number_text(place);
    let mark = if same(model, default) {
        " default"
    } else {
        ""
    };
    cat5("  ", number.as_str(), ". ", model, mark)
}

/// The profile that is chosen: nothing means the active one, a number a place in
/// the list, anything else a name.
pub open spec fn profile_choice(config: AppConfig, raw: Seq<char>) -> Option<Seq<char>> {
    if crate::text::blank(raw) && config.active_profile is Some {
        crate::text::option_text(config.active_profile)
    } else {
        match place(raw, config.profiles@.len()) {
            Some(i) => Some(config.profiles@[i].0),
            None => if config.profiles.map().dom().contains(crate::text::trimmed(raw)) {
                Some(crate::text::trimmed(raw))
            } else {
                None
            },
        }
    }
}

/// The profile that is chosen; none where what was typed names none.
pub fn choose_profile(config: &AppConfig, raw: &str) -> (r: Option<String>)
    ensures
        crate::text::option_text(r) == profile_choice(*config, raw@),
{
    if is_blank(raw) {
        if let Some(active) = &config.active_profile {
            return Some(active.clone());
        }
    }
    if let Some(i) = place_in(raw, config.profiles.len()) {
        return Some(config.profiles.key_at(i).clone());
    }
    if config.profiles.contains_key(trim(raw)) {
        return Some(trim(raw).to_string());
    }
    None
}

/// The line of a profile in the menu, at its place.
pub fn profile_line(place: u64, name: &str, profile: &ProfileConfig, active: bool) -> (r: String)
    ensures
        r@ == "  "@ + crate::text::decimal(place as nat) + ". "@ + name@ + " ["@
            + crate::providers::provider_name(profile.provider) + "] "@ + profile.model@ + (
        if active {
            " active"@
        } else {
            ""@
        }),
{
    let number = number_text(place);
    let head = cat5("  ", number.as_str(), ". ", name, " [");
    let mark = if active {
        " active"
    } else {
        ""
    };
    cat5(head.as_str(), profile.provider.name(), "] ", profile.model.as_str(), mark)
}

/// What stands before the prompt for a profile.
pub fn profile_label(config: &AppConfig) -> (r: String)
    ensures
        r@ == (match config.active_profile {
            Some(active) => "Profile number or name ["@ + active@ + "]"@,
            None => "Profile number or name"@,
        }),
{
    match &config.active_profile {
        Some(active) => cat3("Profile number or name [", active.as_str(), "]"),
        None => "Profile number or name".to_string(),
    }
}

/// A name out of the words of a command line.
pub fn profile_name_from_parts(parts: &Vec<String>) -> (r: String)
    ensures
        r@ == crate::text::joined(crate::text::texts(parts@), " "@),
{
    join(parts, " ")
}

/// The profile that a command line names: by its words, else from a menu, which
/// needs a profile to choose from. Nothing means that the menu is shown.
pub fn select_profile_name(config: &AppConfig, parts: &Vec<String>) -> (r: Result<
    Option<String>,
    AppError,
>)
    ensures
        if parts@.len() > 0 {
            r matches Ok(Some(name)) && name@ == crate::text::joined(
                crate::text::texts(parts@),
                " "@,
            )
        } else if config.profiles@.len() == 0 {
            r matches Err(AppError::InvalidInput(message)) && message@
                == "No profiles found. Run `ai setup` or `ai profile add` first."@
        } else {
            r matches Ok(None)
        },
{
    if !parts.is_empty() {
        return Ok(Some(profile_name_from_parts(parts)));
    }
    if config.profiles.is_empty() {
        return Err(
            AppError::InvalidInput(
                "No profiles found. Run `ai setup` or `ai profile add` first.".to_string(),
            ),
        );
    }
    Ok(None)
}

/// The profile under which a token is kept or looked up before the model is
/// known.
pub fn token_profile(provider: ProviderKind, base_url: &str) -> (r: ProfileConfig)
    ensures
        r.provider == provider,
        r.model@ == crate::providers::provider_model(provider),
        r.base_url@ == base_url@,
        r.token_ref@ == crate::providers::provider_name(provider),
{
    ProfileConfig {
        provider,
        model: provider.default_model().to_string(),
        base_url: base_url.to_string(),
        token_ref: token_ref(&provider),
    }
}

/// The profile that was put together; the reference of its token comes with its
/// being added.
pub fn collected(
    name: String,
    provider: ProviderKind,
    model: String,
    base_url: String,
    token_saved: bool,
) -> (r: CollectedProfile)
    ensures
        r.name == name,
        r.config.provider == provider,
        r.config.model == model,
        r.config.base_url == base_url,
        r.config.token_ref@.len() == 0,
        r.token_saved == token_saved,
{
    CollectedProfile {
        name,
        config: ProfileConfig { provider, model, base_url, token_ref: String::new() },
        token_saved,
    }
}

/// What is chosen by its number in a list is at that place, the first one being
/// one; a number beyond the list chooses nothing.
pub proof fn a_number_chooses_its_place(n: nat, len: nat)
    requires
        1 <= n <= usize::MAX,
    ensures
        n <= len ==> place(crate::text::decimal(n), len) == Some(n - 1),
        n > len ==> place(crate::text::decimal(n), len) is None,
{
    crate::text::written_numbers_are_read(n, usize::MAX as nat);
}

/// Providers are chosen by their number in the list or by their name; an empty
/// answer chooses OpenRouter.
pub proof fn providers_are_chosen_by_number_or_name(n: nat)
    requires
        1 <= n <= usize::MAX,
    ensures
        provider_choice(Seq::<char>::empty()) == Some(ProviderKind::OpenRouter),
        n == 1 ==> provider_choice(crate::text::decimal(n)) == Some(ProviderKind::OpenAiCompatible),
        n == 2 ==> provider_choice(crate::text::decimal(n)) == Some(ProviderKind::OpenRouter),
        n == 3 ==> provider_choice(crate::text::decimal(n)) == Some(ProviderKind::DeepSeek),
        n == 4 ==> provider_choice(crate::text::decimal(n)) == Some(ProviderKind::GigaChat),
        n == 5 ==> provider_choice(crate::text::decimal(n)) == Some(ProviderKind::Kimi),
{
    a_number_chooses_its_place(n, 5);
    lemma_numbers_are_seen(n);
    crate::text::trimming_takes_off_white_space_alone(Seq::<char>::empty());
}

/// A model is chosen by its number in the list; an empty answer chooses the
/// default, and any other but the word for it is the model's own name.
pub proof fn models_are_chosen_by_number_or_name(
    raw: Seq<char>,
    n: nat,
    models: Seq<String>,
    default: Seq<char>,
    r: ModelChoice,
)
    requires
        chooses_model(raw, models, default, r),
        1 <= n <= models.len(),
        n <= usize::MAX,
    ensures
        crate::text::blank(raw) ==> r is Use && r->Use_0@ == default,
        raw == crate::text::decimal(n) ==> r is Use && r->Use_0@ == models[n - 1]@,
        raw == "custom"@ ==> r is AskCustom,
{
    if raw == crate::text::decimal(n) {
        a_number_chooses_its_place(n, models.len());
        lemma_numbers_are_seen(n);
    }
    if raw == "custom"@ {
        crate::text::trimming_takes_off_white_space_alone(raw);
        reveal_strlit("custom");
        assert(!crate::text::white_space(raw[0]));
        crate::text::other_texts_are_no_numbers(raw, 1, usize::MAX as nat);
    }
}

/// A profile is chosen by its number or by its name; an empty answer keeps the
/// active one, and a name that no profile has chooses none.
pub proof fn profiles_are_chosen_by_number_or_name(config: AppConfig, raw: Seq<char>, n: nat)
    requires
        1 <= n <= usize::MAX,
    ensures
        crate::text::blank(raw) && config.active_profile is Some ==> profile_choice(config, raw)
            == crate::text::option_text(config.active_profile),
        raw == crate::text::decimal(n) && n <= config.profiles@.len() ==> profile_choice(config, raw)
            == Some(config.profiles@[n - 1].0),
        !crate::text::blank(raw) && place(raw, config.profiles@.len()) is None
            && config.profiles.map().contains_key(crate::text::trimmed(raw)) ==> profile_choice(
            config,
            raw,
        ) == Some(crate::text::trimmed(raw)),
        !crate::text::blank(raw) && place(raw, config.profiles@.len()) is None
            && !config.profiles.map().contains_key(crate::text::trimmed(raw)) ==> profile_choice(
            config,
            raw,
        ) is None,
{
    if raw == crate::text::decimal(n) {
        a_number_chooses_its_place(n, config.profiles@.len());
        lemma_numbers_are_seen(n);
    }
}

proof fn lemma_numbers_are_seen(n: nat)
    ensures
        !crate::text::blank(crate::text::decimal(n)),
{
    let raw = crate::text::decimal(n);
    crate::text::digits_are_read_back(n);
    crate::text::trimming_takes_off_white_space_alone(raw);
    assert('0' <= raw[0] <= '9');
    assert(!crate::text::white_space(raw[0]));
}

} // verus!
