//! Tokens: where they are stored, under which references, and how a profile
//! finds its own.
use vstd::prelude::*;

use crate::config::{legacy_token_ref, token_ref, AppConfig, ProfileConfig};
use crate::errors::AppError;
use crate::text::{byte_len, cat3, same};
use crate::text_map::TextMap;

verus! {

broadcast use vstd::string::group_string_axioms;

/// The value of `key` in a map, where it has one.
pub open spec fn lookup(tokens: Map<Seq<char>, Seq<char>>, key: Seq<char>) -> Option<Seq<char>> {
    if tokens.dom().contains(key) {
        Some(tokens[key])
    } else {
        None
    }
}

/// A store of tokens under references.
pub trait SecretStore {
    /// The tokens in the store. A store outside the library cannot tell them and
    /// keeps this default, of which nothing is known: what is proved of such a
    /// store rests on the trust that it keeps tokens as the methods below say,
    /// which this one value for every store does not show.
    closed spec fn tokens(&self) -> Map<Seq<char>, Seq<char>> {
        arbitrary()
    }

    /// Whether the store answers every call without an error. None does unless
    /// it says so.
    open spec fn answers(&self) -> bool {
        false
    }

    /// Stores a token.
    fn set_token(&mut self, token_ref: &str, token: &str) -> (r: Result<(), AppError>)
        ensures
            r is Ok ==> final(self).tokens() == old(self).tokens().insert(token_ref@, token@),
            old(self).answers() ==> r is Ok && final(self).answers(),
    ;

    /// Looks a token up.
    fn get_token(&self, token_ref: &str) -> (r: Result<Option<String>, AppError>)
        ensures
            r matches Ok(found) ==> crate::text::option_text(found) == lookup(
                self.tokens(),
                token_ref@,
            ),
            self.answers() ==> r is Ok,
    ;

    /// Takes a token out.
    fn delete_token(&mut self, token_ref: &str) -> (r: Result<(), AppError>)
        ensures
            r is Ok ==> final(self).tokens() == old(self).tokens().remove(token_ref@),
            old(self).answers() ==> r is Ok && final(self).answers(),
    ;
}

/// The tokens of a file or of memory, as one document.
pub struct StoredSecrets {
    pub tokens: TextMap<String>,
}

impl StoredSecrets {
    /// The tokens as texts.
    pub open spec fn token_map(&self) -> Map<Seq<char>, Seq<char>> {
        self.tokens.map().map_values(|token: String| token@)
    }

    /// No token.
    pub fn new() -> (r: Self)
        ensures
            r.token_map() == Map::<Seq<char>, Seq<char>>::empty(),
    {
        let r = StoredSecrets { tokens: TextMap::new() };
        assert(r.token_map() =~= Map::<Seq<char>, Seq<char>>::empty());
        r
    }

    /// Stores a token in the document.
    pub fn set_fallback_token(&mut self, token_ref: &str, token: &str)
        ensures
            final(self).token_map() == old(self).token_map().insert(token_ref@, token@),
    {
        self.tokens.insert(token_ref.to_string(), token.to_string());
        assert(self.token_map() =~= old(self).token_map().insert(token_ref@, token@));
    }

    /// Looks a token up in the document.
    pub fn get_fallback_token(&self, token_ref: &str) -> (r: Option<String>)
        ensures
            crate::text::option_text(r) == lookup(self.token_map(), token_ref@),
    {
        match self.tokens.get(token_ref) {
            Some(token) => Some(token.clone()),
            None => None,
        }
    }

    /// Takes a token out of the document.
    pub fn delete_fallback_token(&mut self, token_ref: &str)
        ensures
            final(self).token_map() == old(self).token_map().remove(token_ref@),
    {
        self.tokens.remove(token_ref);
        assert(self.token_map() =~= old(self).token_map().remove(token_ref@));
    }
}

/// A store that lives as long as the process.
pub struct MemorySecretStore {
    secrets: StoredSecrets,
}

impl MemorySecretStore {
    /// An empty store.
    pub fn new() -> (r: Self)
        ensures
            r.tokens() == Map::<Seq<char>, Seq<char>>::empty(),
            r.answers(),
    {
        MemorySecretStore { secrets: StoredSecrets::new() }
    }
}

impl Default for MemorySecretStore {
    fn default() -> (r: Self)
        ensures
            r.tokens() == Map::<Seq<char>, Seq<char>>::empty(),
            r.answers(),
    {
        MemorySecretStore::new()
    }
}

impl SecretStore for MemorySecretStore {
    closed spec fn tokens(&self) -> Map<Seq<char>, Seq<char>> {
        self.secrets.token_map()
    }

    open spec fn answers(&self) -> bool {
        true
    }

    fn set_token(&mut self, token_ref: &str, token: &str) -> (r: Result<(), AppError>) {
        self.secrets.set_fallback_token(token_ref, token);
        Ok(())
    }

    fn get_token(&self, token_ref: &str) -> (r: Result<Option<String>, AppError>) {
        Ok(self.secrets.get_fallback_token(token_ref))
    }

    fn delete_token(&mut self, token_ref: &str) -> (r: Result<(), AppError>) {
        self.secrets.delete_fallback_token(token_ref);
        Ok(())
    }
}

/// What a keychain says of an entry.
#[derive(Debug, Clone, PartialEq, Eq)]
pub enum KeyringAnswer {
    Token(String),
    NoEntry,
    Failed(String),
}

/// The store over the system keychain, with a file to fall back on.
#[derive(Debug, Clone, Copy, PartialEq, Eq)]
pub struct KeyringSecretStore;

impl KeyringSecretStore {
    /// Whether the keychain's entry of the former service name is to be read.
    pub fn asks_legacy_service(answer: &KeyringAnswer) -> (r: bool)
        ensures
            r == (*answer is NoEntry),
    {
        match answer {
            KeyringAnswer::NoEntry => true,
            _ => false,
        }
    }

    /// What the keychain holds: the entry of the service, else the entry of the
    /// former service name.
    pub fn keyring_token(current: KeyringAnswer, legacy: KeyringAnswer) -> (r: Result<
        Option<String>,
        AppError,
    >)
        ensures
            match (current, legacy) {
                (KeyringAnswer::Token(token), _) => r == Ok::<Option<String>, AppError>(
                    Some(token),
                ),
                (KeyringAnswer::Failed(reason), _) => r == Err::<Option<String>, AppError>(
                    AppError::Secret(reason),
                ),
                (KeyringAnswer::NoEntry, KeyringAnswer::Token(token)) => r == Ok::<
                    Option<String>,
                    AppError,
                >(Some(token)),
                (KeyringAnswer::NoEntry, KeyringAnswer::NoEntry) => r == Ok::<
                    Option<String>,
                    AppError,
                >(None),
                (KeyringAnswer::NoEntry, KeyringAnswer::Failed(reason)) => r == Err::<
                    Option<String>,
                    AppError,
                >(AppError::Secret(reason)),
            },
    {
        match current {
            KeyringAnswer::Token(token) => Ok(Some(token)),
            KeyringAnswer::Failed(reason) => Err(AppError::Secret(reason)),
            KeyringAnswer::NoEntry => match legacy {
                KeyringAnswer::Token(token) => Ok(Some(token)),
                KeyringAnswer::NoEntry => Ok(None),
                KeyringAnswer::Failed(reason) => Err(AppError::Secret(reason)),
            },
        }
    }

    /// The token found: the keychain's, else what the file says. A keychain that
    /// fails counts as one without the token.
    pub fn found_token(
        keyring: Result<Option<String>, AppError>,
        fallback: Result<Option<String>, AppError>,
    ) -> (r: Result<Option<String>, AppError>)
        ensures
            r == (if keyring is Ok && keyring->Ok_0 is Some {
                keyring
            } else {
                fallback
            }),
    {
        match keyring {
            Ok(Some(token)) => Ok(Some(token)),
            _ => fallback,
        }
    }

    /// Whether a token counts as stored: the file decides, a failing keychain
    /// does not.
    pub fn stored(keyring: Result<(), AppError>, fallback: Result<(), AppError>) -> (r: Result<
        (),
        AppError,
    >)
        ensures
            r == fallback,
    {
        fallback
    }

    /// What a keychain's delete comes to: a missing entry is as good as a
    /// deleted one.
    pub fn deleted(answer: KeyringAnswer) -> (r: Result<(), AppError>)
        ensures
            match answer {
                KeyringAnswer::Failed(reason) => r == Err::<(), AppError>(AppError::Secret(reason)),
                _ => r is Ok,
            },
    {
        match answer {
            KeyringAnswer::Failed(reason) => Err(AppError::Secret(reason)),
            _ => Ok(()),
        }
    }
}

/// The bytes of a masked token: its first and last four around three dots.
pub open spec fn masked_bytes(token: Seq<u8>) -> Seq<u8> {
    token.subrange(0, 4) + vstd::utf8::encode_utf8("..."@) + token.subrange(
        token.len() - 4,
        token.len() as int,
    )
}

/// A token as it can be shown. A token longer than eight bytes shows its first
/// and last four, which must not cut a character.
pub fn mask_token(token: &str) -> (r: String)
    requires
        vstd::utf8::encode_utf8(token@).len() > 8 ==> vstd::utf8::is_char_boundary(
            vstd::utf8::encode_utf8(token@),
            4,
        ) && vstd::utf8::is_char_boundary(
            vstd::utf8::encode_utf8(token@),
            vstd::utf8::encode_utf8(token@).len() - 4,
        ),
    ensures
        vstd::utf8::encode_utf8(token@).len() == 0 ==> r@ == "<empty>"@,
        1 <= vstd::utf8::encode_utf8(token@).len() <= 8 ==> r@ == "****"@,
        vstd::utf8::encode_utf8(token@).len() > 8 ==> vstd::utf8::encode_utf8(r@) == masked_bytes(
            vstd::utf8::encode_utf8(token@),
        ),
{
    let len: usize = byte_len(token);
    if len == 0 {
        "<empty>".to_string()
    } else if len <= 8 {
        "****".to_string()
    } else {
        let (first, _) = token.split_at(4);
        let (_, last) = token.split_at(len - 4);
        let r = cat3(first, "...", last);
        proof {
            crate::text::lemma_bytes_of_concat(first@ + "..."@, last@);
            crate::text::lemma_bytes_of_concat(first@, "..."@);
        }
        r
    }
}

/// A masked token never shows the whole token, unless what lies between its
/// first and last four bytes is three dots.
pub proof fn masked_token_differs(token: Seq<u8>)
    requires
        token.len() > 8,
        token.subrange(4, token.len() - 4) != vstd::utf8::encode_utf8("..."@),
    ensures
        masked_bytes(token) != token,
{
    let dots = vstd::utf8::encode_utf8("..."@);
    let m = masked_bytes(token);
    if m == token {
        assert(m.len() == 8 + dots.len());
        assert(token.subrange(4, token.len() - 4) =~= dots) by {
            assert forall|i: int| 0 <= i < dots.len() implies token.subrange(
                4,
                token.len() - 4,
            )[i] == dots[i] by {
                assert(m[4 + i] == dots[i]);
            }
        }
    }
}

/// The references under which a profile's token may be stored, the provider's
/// own first.
pub open spec fn token_refs(name: Seq<char>, profile: ProfileConfig) -> Seq<Seq<char>> {
    let current = crate::providers::provider_name(profile.provider);
    let legacy = crate::config::legacy_ref(profile.provider, name);
    if profile.token_ref@ == current || profile.token_ref@ == legacy {
        seq![current, legacy]
    } else {
        seq![current, profile.token_ref@, legacy]
    }
}

/// The references under which a profile's token may be stored.
pub fn profile_token_refs(profile_name: &str, profile: &ProfileConfig) -> (r: Vec<String>)
    ensures
        crate::text::texts(r@) == token_refs(profile_name@, *profile),
{
    let current = token_ref(&profile.provider);
    let legacy = legacy_token_ref(&profile.provider, profile_name);
    let mut refs: Vec<String> = Vec::new();
    let known = same(profile.token_ref.as_str(), current.as_str()) || same(
        profile.token_ref.as_str(),
        legacy.as_str(),
    );
    refs.push(current);
    if !known {
        refs.push(profile.token_ref.clone());
    }
    refs.push(legacy);
    assert(crate::text::texts(refs@) =~= token_refs(profile_name@, *profile));
    refs
}

/// The token under the first of `refs` that has one.
pub open spec fn first_token(tokens: Map<Seq<char>, Seq<char>>, refs: Seq<Seq<char>>) -> Option<
    Seq<char>,
>
    decreases refs.len(),
{
    if refs.len() == 0 {
        None
    } else if tokens.dom().contains(refs[0]) {
        Some(tokens[refs[0]])
    } else {
        first_token(tokens, refs.skip(1))
    }
}

/// The token under the first of `refs` that has one, and the place of that
/// reference.
fn find_token<S: SecretStore>(secrets: &S, refs: &Vec<String>) -> (r: Result<
    Option<(usize, String)>,
    AppError,
>)
    ensures
        match r {
            Ok(Some((place, token))) => {
                &&& place < refs@.len()
                &&& first_token(secrets.tokens(), crate::text::texts(refs@)) == Some(token@)
                &&& place == 0 <==> secrets.tokens().dom().contains(refs@[0]@)
            },
            Ok(None) => first_token(secrets.tokens(), crate::text::texts(refs@)) is None,
            Err(_) => true,
        },
        secrets.answers() ==> r is Ok,
{
    let ghost all = crate::text::texts(refs@);
    let mut i: usize = 0;
    assert(all.skip(0) =~= all);
    while i < refs.len()
        invariant
            i <= refs.len(),
            crate::text::texts(refs@) == all,
            i > 0 ==> !secrets.tokens().dom().contains(refs@[0]@),
            first_token(secrets.tokens(), all) == first_token(secrets.tokens(), all.skip(i as int)),
        decreases refs.len() - i,
    {
        assert(all.skip(i as int)[0] == refs@[i as int]@);
        assert(all.skip(i as int).skip(1) =~= all.skip(i + 1));
        match secrets.get_token(refs[i].as_str()) {
            Err(error) => {
                return Err(error);
            },
            Ok(Some(token)) => {
                return Ok(Some((i, token)));
            },
            Ok(None) => {},
        }
        i = i + 1;
    }
    Ok(None)
}

/// The token of a profile: the provider's, else one of the older references.
pub fn get_profile_token<S: SecretStore>(
    secrets: &S,
    profile_name: &str,
    profile: &ProfileConfig,
) -> (r: Result<Option<String>, AppError>)
    ensures
        r matches Ok(found) ==> crate::text::option_text(found) == first_token(
            secrets.tokens(),
            token_refs(profile_name@, *profile),
        ),
        secrets.answers() ==> r is Ok,
{
    let refs = profile_token_refs(profile_name, profile);
    match find_token(secrets, &refs) {
        Ok(Some((_, token))) => Ok(Some(token)),
        Ok(None) => Ok(None),
        Err(error) => Err(error),
    }
}

/// Whether a profile is another profile of the same provider.
pub open spec fn is_sibling(
    entry: (Seq<char>, ProfileConfig),
    name: Seq<char>,
    profile: ProfileConfig,
) -> bool {
    entry.0 != name && entry.1.provider == profile.provider
}

/// The token of the first sibling profile that has one.
pub open spec fn sibling_token(
    tokens: Map<Seq<char>, Seq<char>>,
    profiles: Seq<(Seq<char>, ProfileConfig)>,
    name: Seq<char>,
    profile: ProfileConfig,
) -> Option<Seq<char>>
    decreases profiles.len(),
{
    if profiles.len() == 0 {
        None
    } else {
        let found = first_token(tokens, token_refs(profiles[0].0, profiles[0].1));
        if is_sibling(profiles[0], name, profile) && found is Some {
            found
        } else {
            sibling_token(tokens, profiles.skip(1), name, profile)
        }
    }
}

/// The token of a profile: its own, else that of a sibling profile.
pub open spec fn shared_token(
    tokens: Map<Seq<char>, Seq<char>>,
    profiles: Seq<(Seq<char>, ProfileConfig)>,
    name: Seq<char>,
    profile: ProfileConfig,
) -> Option<Seq<char>> {
    let own = first_token(tokens, token_refs(name, profile));
    if own is Some {
        own
    } else {
        sibling_token(tokens, profiles, name, profile)
    }
}

/// The tokens after a profile has looked for its own: a token that was found
/// elsewhere than under the provider's reference has been stored there too.
pub open spec fn tokens_after_search(
    tokens: Map<Seq<char>, Seq<char>>,
    profiles: Seq<(Seq<char>, ProfileConfig)>,
    name: Seq<char>,
    profile: ProfileConfig,
) -> Map<Seq<char>, Seq<char>> {
    let current = crate::providers::provider_name(profile.provider);
    match shared_token(tokens, profiles, name, profile) {
        Some(token) if !tokens.dom().contains(current) => tokens.insert(current, token),
        _ => tokens,
    }
}

/// The token of a profile: its own, else that of a sibling profile of the same
/// provider. One that is not stored for the provider yet, but for a profile
/// alone, is then stored for the provider.
pub fn get_config_profile_token<S: SecretStore>(
    secrets: &mut S,
    config: &AppConfig,
    profile_name: &str,
    profile: &ProfileConfig,
) -> (r: Result<Option<String>, AppError>)
    ensures
        r matches Ok(found) ==> crate::text::option_text(found) == shared_token(
            old(secrets).tokens(),
            config.profiles@,
            profile_name@,
            *profile,
        ) && final(secrets).tokens() == tokens_after_search(
            old(secrets).tokens(),
            config.profiles@,
            profile_name@,
            *profile,
        ),
        old(secrets).answers() ==> r is Ok && final(secrets).answers(),
{
    let refs = profile_token_refs(profile_name, profile);
    assert(crate::text::texts(refs@)[0] == refs@[0]@);
    match find_token(&*secrets, &refs) {
        Err(error) => {
            return Err(error);
        },
        Ok(Some((place, token))) => {
            if place == 0 {
                return Ok(Some(token));
            }
            return match set_profile_token(secrets, profile, token.as_str()) {
                Ok(()) => Ok(Some(token)),
                Err(error) => Err(error),
            };
        },
        Ok(None) => {},
    }
    let ghost entries = config.profiles@;
    let ghost tokens = secrets.tokens();
    let n: usize = config.profiles.len();
    let mut i: usize = 0;
    assert(entries.skip(0) =~= entries);
    while i < n
        invariant
            n == config.profiles@.len(),
            i <= n,
            entries == config.profiles@,
            tokens == secrets.tokens(),
            tokens == old(secrets).tokens(),
            old(secrets).answers() ==> secrets.answers(),
            first_token(tokens, token_refs(profile_name@, *profile)) is None,
            sibling_token(tokens, entries, profile_name@, *profile) == sibling_token(
                tokens,
                entries.skip(i as int),
                profile_name@,
                *profile,
            ),
        decreases n - i,
    {
        let candidate_name = config.profiles.key_at(i);
        let candidate = config.profiles.value_at(i);
        assert(entries.skip(i as int)[0] == (candidate_name@, *candidate));
        assert(entries.skip(i as int).skip(1) =~= entries.skip(i + 1));
        if !same(candidate_name.as_str(), profile_name) && candidate.provider == profile.provider {
            match get_profile_token(&*secrets, candidate_name.as_str(), candidate) {
                Err(error) => {
                    return Err(error);
                },
                Ok(Some(token)) => {
                    match set_profile_token(secrets, profile, token.as_str()) {
                        Err(error) => {
                            return Err(error);
                        },
                        Ok(()) => {
                            return Ok(Some(token));
                        },
                    }
                },
                Ok(None) => {},
            }
        }
        i = i + 1;
    }
    Ok(None)
}

/// Stores a token for the provider of a profile.
pub fn set_profile_token<S: SecretStore>(
    secrets: &mut S,
    profile: &ProfileConfig,
    token: &str,
) -> (r: Result<(), AppError>)
    ensures
        r is Ok ==> final(secrets).tokens() == old(secrets).tokens().insert(
            crate::providers::provider_name(profile.provider),
            token@,
        ),
        old(secrets).answers() ==> r is Ok && final(secrets).answers(),
{
    let key = token_ref(&profile.provider);
    secrets.set_token(key.as_str(), token)
}

/// A map without the keys of a list.
pub open spec fn without_keys(tokens: Map<Seq<char>, Seq<char>>, refs: Seq<Seq<char>>) -> Map<
    Seq<char>,
    Seq<char>,
>
    decreases refs.len(),
{
    if refs.len() == 0 {
        tokens
    } else {
        without_keys(tokens.remove(refs[0]), refs.skip(1))
    }
}

/// Takes out every token that the profile could find as its own.
pub fn delete_profile_token<S: SecretStore>(
    secrets: &mut S,
    profile_name: &str,
    profile: &ProfileConfig,
) -> (r: Result<(), AppError>)
    ensures
        r is Ok ==> final(secrets).tokens() == without_keys(
            old(secrets).tokens(),
            token_refs(profile_name@, *profile),
        ),
        old(secrets).answers() ==> r is Ok && final(secrets).answers(),
{
    let refs = profile_token_refs(profile_name, profile);
    let ghost all = token_refs(profile_name@, *profile);
    let ghost goal = without_keys(secrets.tokens(), all);
    let mut i: usize = 0;
    assert(all.skip(0) =~= all);
    while i < refs.len()
        invariant
            i <= refs.len(),
            crate::text::texts(refs@) == all,
            goal == without_keys(old(secrets).tokens(), all),
            goal == without_keys(secrets.tokens(), all.skip(i as int)),
            old(secrets).answers() ==> secrets.answers(),
        decreases refs.len() - i,
    {
        assert(all.skip(i as int)[0] == refs@[i as int]@);
        assert(all.skip(i as int).skip(1) =~= all.skip(i + 1));
        match secrets.delete_token(refs[i].as_str()) {
            Err(error) => {
                return Err(error);
            },
            Ok(()) => {},
        }
        i = i + 1;
    }
    Ok(())
}

/// Takes out the token that was stored for the profile alone.
pub fn delete_legacy_profile_token<S: SecretStore>(
    secrets: &mut S,
    profile_name: &str,
    profile: &ProfileConfig,
) -> (r: Result<(), AppError>)
    ensures
        r is Ok ==> final(secrets).tokens() == old(secrets).tokens().remove(
            crate::config::legacy_ref(profile.provider, profile_name@),
        ),
        old(secrets).answers() ==> r is Ok && final(secrets).answers(),
{
    let key = legacy_token_ref(&profile.provider, profile_name);
    secrets.delete_token(key.as_str())
}

/// A token that is stored for a profile is found by every profile of the same
/// provider, whatever its name and its own reference.
pub proof fn stored_token_is_shared(
    tokens: Map<Seq<char>, Seq<char>>,
    profile: ProfileConfig,
    token: Seq<char>,
    other_name: Seq<char>,
    other: ProfileConfig,
)
    requires
        other.provider == profile.provider,
    ensures
        first_token(
            tokens.insert(crate::providers::provider_name(profile.provider), token),
            token_refs(other_name, other),
        ) == Some(token),
{
    let refs = token_refs(other_name, other);
    assert(refs[0] == crate::providers::provider_name(profile.provider));
}

proof fn lemma_without_keys(tokens: Map<Seq<char>, Seq<char>>, refs: Seq<Seq<char>>, key: Seq<char>)
    ensures
        refs.contains(key) ==> !without_keys(tokens, refs).dom().contains(key),
        !tokens.dom().contains(key) ==> !without_keys(tokens, refs).dom().contains(key),
        !refs.contains(key) ==> (without_keys(tokens, refs).dom().contains(key)
            <==> tokens.dom().contains(key)),
        !refs.contains(key) && tokens.dom().contains(key) ==> without_keys(tokens, refs)[key]
            == tokens[key],
    decreases refs.len(),
{
    if refs.len() > 0 {
        let rest = refs.skip(1);
        lemma_without_keys(tokens.remove(refs[0]), rest, key);
        if refs.contains(key) && refs[0] != key {
            let i = choose|i: int| 0 <= i < refs.len() && refs[i] == key;
            assert(rest[i - 1] == key);
        }
        if rest.contains(key) {
            let i = choose|i: int| 0 <= i < rest.len() && rest[i] == key;
            assert(refs[i + 1] == key);
        }
    }
}

proof fn lemma_no_first_token(tokens: Map<Seq<char>, Seq<char>>, refs: Seq<Seq<char>>)
    requires
        forall|i: int| 0 <= i < refs.len() ==> !tokens.dom().contains(#[trigger] refs[i]),
    ensures
        first_token(tokens, refs) is None,
    decreases refs.len(),
{
    if refs.len() > 0 {
        let rest = refs.skip(1);
        assert(!tokens.dom().contains(refs[0]));
        assert forall|i: int| 0 <= i < rest.len() implies !tokens.dom().contains(
            #[trigger] rest[i],
        ) by {
            assert(rest[i] == refs[i + 1]);
        }
        lemma_no_first_token(tokens, rest);
    }
}

/// After a profile's token is deleted, the profile finds none of its own.
pub proof fn deleted_token_is_gone(
    tokens: Map<Seq<char>, Seq<char>>,
    name: Seq<char>,
    profile: ProfileConfig,
)
    ensures
        first_token(without_keys(tokens, token_refs(name, profile)), token_refs(name, profile)) is None,
{
    let refs = token_refs(name, profile);
    let left = without_keys(tokens, refs);
    assert forall|i: int| 0 <= i < refs.len() implies !left.dom().contains(#[trigger] refs[i]) by {
        lemma_without_keys(tokens, refs, refs[i]);
    }
    lemma_no_first_token(left, refs);
}

/// Deleting a profile's token leaves every other reference as it was.
pub proof fn other_tokens_stay(
    tokens: Map<Seq<char>, Seq<char>>,
    name: Seq<char>,
    profile: ProfileConfig,
    key: Seq<char>,
)
    requires
        !token_refs(name, profile).contains(key),
    ensures
        lookup(without_keys(tokens, token_refs(name, profile)), key) == lookup(tokens, key),
{
    lemma_without_keys(tokens, token_refs(name, profile), key);
}

/// A search that found a token leaves it under the provider's reference: the
/// next search finds the same one there, and stores nothing more.
pub proof fn second_search_is_direct(
    tokens: Map<Seq<char>, Seq<char>>,
    profiles: Seq<(Seq<char>, ProfileConfig)>,
    name: Seq<char>,
    profile: ProfileConfig,
)
    requires
        shared_token(tokens, profiles, name, profile) is Some,
    ensures
        ({
            let after = tokens_after_search(tokens, profiles, name, profile);
            &&& lookup(after, crate::providers::provider_name(profile.provider)) == shared_token(
                tokens,
                profiles,
                name,
                profile,
            )
            &&& first_token(after, token_refs(name, profile)) == shared_token(
                tokens,
                profiles,
                name,
                profile,
            )
            &&& tokens_after_search(after, profiles, name, profile) == after
        }),
{
    let refs = token_refs(name, profile);
    assert(refs[0] == crate::providers::provider_name(profile.provider));
}

/// A search leaves every reference but the provider's as it was, and that one
/// too where it holds a token.
pub proof fn search_keeps_tokens(
    tokens: Map<Seq<char>, Seq<char>>,
    profiles: Seq<(Seq<char>, ProfileConfig)>,
    name: Seq<char>,
    profile: ProfileConfig,
    key: Seq<char>,
)
    requires
        key != crate::providers::provider_name(profile.provider) || tokens.dom().contains(key),
    ensures
        lookup(tokens_after_search(tokens, profiles, name, profile), key) == lookup(tokens, key),
{
}

proof fn lemma_first_token_of_same_keys(
    a: Map<Seq<char>, Seq<char>>,
    b: Map<Seq<char>, Seq<char>>,
    refs: Seq<Seq<char>>,
)
    requires
        a.dom() == b.dom(),
    ensures
        first_token(a, refs) is Some <==> first_token(b, refs) is Some,
    decreases refs.len(),
{
    if refs.len() > 0 {
        lemma_first_token_of_same_keys(a, b, refs.skip(1));
    }
}

proof fn lemma_sibling_token_of_same_keys(
    a: Map<Seq<char>, Seq<char>>,
    b: Map<Seq<char>, Seq<char>>,
    profiles: Seq<(Seq<char>, ProfileConfig)>,
    name: Seq<char>,
    profile: ProfileConfig,
)
    requires
        a.dom() == b.dom(),
    ensures
        sibling_token(a, profiles, name, profile) is Some <==> sibling_token(
            b,
            profiles,
            name,
            profile,
        ) is Some,
    decreases profiles.len(),
{
    if profiles.len() > 0 {
        lemma_first_token_of_same_keys(a, b, token_refs(profiles[0].0, profiles[0].1));
        lemma_sibling_token_of_same_keys(a, b, profiles.skip(1), name, profile);
    }
}

/// Whether a profile finds a token depends on the references that hold one, not
/// on what they hold.
pub proof fn presence_depends_on_references(
    a: Map<Seq<char>, Seq<char>>,
    b: Map<Seq<char>, Seq<char>>,
    profiles: Seq<(Seq<char>, ProfileConfig)>,
    name: Seq<char>,
    profile: ProfileConfig,
)
    requires
        a.dom() == b.dom(),
    ensures
        shared_token(a, profiles, name, profile) is Some <==> shared_token(
            b,
            profiles,
            name,
            profile,
        ) is Some,
{
    lemma_first_token_of_same_keys(a, b, token_refs(name, profile));
    lemma_sibling_token_of_same_keys(a, b, profiles, name, profile);
}

/// Where a token of a profile is looked for: under the provider first, under the
/// former name last, and between them under the profile's own reference, no place
/// twice.
pub proof fn tokens_are_looked_for_in_order(name: Seq<char>, profile: ProfileConfig)
    ensures
        ({
            let refs = token_refs(name, profile);
            &&& 2 <= refs.len() <= 3
            &&& refs[0] == crate::providers::provider_name(profile.provider)
            &&& refs[refs.len() - 1] == crate::providers::provider_name(profile.provider) + ":"@
                + name
            &&& refs.contains(profile.token_ref@)
            &&& forall|i: int, j: int| 0 <= i < j < refs.len() ==> refs[i] != refs[j]
        }),
{
    let refs = token_refs(name, profile);
    let current = crate::providers::provider_name(profile.provider);
    reveal_strlit(":");
    assert((current + ":"@ + name).len() > current.len());
    if refs.len() == 2 {
        assert(refs[0] == profile.token_ref@ || refs[1] == profile.token_ref@);
    } else {
        assert(refs[1] == profile.token_ref@);
    }
}

/// The first place that holds a token gives it, whatever the others hold; where
/// none does, there is none.
pub proof fn the_first_place_gives_the_token(
    tokens: Map<Seq<char>, Seq<char>>,
    refs: Seq<Seq<char>>,
    i: int,
)
    requires
        0 <= i <= refs.len(),
        forall|j: int| 0 <= j < i ==> !tokens.contains_key(#[trigger] refs[j]),
        i < refs.len() ==> tokens.contains_key(refs[i]),
    ensures
        i < refs.len() ==> first_token(tokens, refs) == Some(tokens[refs[i]]),
        i == refs.len() ==> first_token(tokens, refs) is None,
    decreases refs.len(),
{
    if i > 0 {
        assert(!tokens.contains_key(refs[0]));
        let rest = refs.skip(1);
        assert forall|j: int| 0 <= j < i - 1 implies !tokens.contains_key(#[trigger] rest[j]) by {
            assert(rest[j] == refs[j + 1]);
        }
        the_first_place_gives_the_token(tokens, rest, i - 1);
    }
}

/// A profile's own token comes before that of any other; the token of another is
/// only shared within one provider.
pub proof fn own_tokens_come_before_shared_ones(
    tokens: Map<Seq<char>, Seq<char>>,
    profiles: Seq<(Seq<char>, ProfileConfig)>,
    name: Seq<char>,
    profile: ProfileConfig,
)
    ensures
        tokens.contains_key(crate::providers::provider_name(profile.provider)) ==> shared_token(
            tokens,
            profiles,
            name,
            profile,
        ) == Some(tokens[crate::providers::provider_name(profile.provider)]),
        first_token(tokens, token_refs(name, profile)) is Some ==> shared_token(
            tokens,
            profiles,
            name,
            profile,
        ) == first_token(tokens, token_refs(name, profile)),
        (forall|i: int|
            0 <= i < profiles.len() ==> (#[trigger] profiles[i]).1.provider != profile.provider)
            ==> shared_token(tokens, profiles, name, profile) == first_token(
            tokens,
            token_refs(name, profile),
        ),
{
    if forall|i: int|
        0 <= i < profiles.len() ==> (#[trigger] profiles[i]).1.provider != profile.provider {
        lemma_no_sibling(tokens, profiles, name, profile);
    }
}

proof fn lemma_no_sibling(
    tokens: Map<Seq<char>, Seq<char>>,
    profiles: Seq<(Seq<char>, ProfileConfig)>,
    name: Seq<char>,
    profile: ProfileConfig,
)
    requires
        forall|i: int|
            0 <= i < profiles.len() ==> (#[trigger] profiles[i]).1.provider != profile.provider,
    ensures
        sibling_token(tokens, profiles, name, profile) is None,
    decreases profiles.len(),
{
    if profiles.len() > 0 {
        let rest = profiles.skip(1);
        assert forall|i: int| 0 <= i < rest.len() implies (#[trigger] rest[i]).1.provider
            != profile.provider by {
            assert(rest[i] == profiles[i + 1]);
        }
        assert(profiles[0].1.provider != profile.provider);
        lemma_no_sibling(tokens, rest, name, profile);
    }
}

/// A profile without a token of its own shares that of another of its provider.
pub proof fn a_sibling_shares_its_token(
    tokens: Map<Seq<char>, Seq<char>>,
    profiles: Seq<(Seq<char>, ProfileConfig)>,
    name: Seq<char>,
    profile: ProfileConfig,
    i: int,
)
    requires
        0 <= i < profiles.len(),
        profiles[i].0 != name,
        profiles[i].1.provider == profile.provider,
        first_token(tokens, token_refs(profiles[i].0, profiles[i].1)) is Some,
    ensures
        sibling_token(tokens, profiles, name, profile) is Some,
        shared_token(tokens, profiles, name, profile) is Some,
    decreases profiles.len(),
{
    if i > 0 {
        let rest = profiles.skip(1);
        assert(rest[i - 1] == profiles[i]);
        a_sibling_shares_its_token(tokens, rest, name, profile, i - 1);
    }
}

/// A token that is shown masked shows four of its bytes at each end and nothing
/// else of it.
pub proof fn a_mask_shows_the_ends_alone(token: Seq<u8>, other: Seq<u8>)
    requires
        token.len() > 8,
        other.len() > 8,
        token.take(4) == other.take(4),
        token.skip(token.len() - 4) == other.skip(other.len() - 4),
    ensures
        masked_bytes(token) == masked_bytes(other),
        masked_bytes(token).take(4) == token.take(4),
        masked_bytes(token).skip(masked_bytes(token).len() - 4) == token.skip(token.len() - 4),
{
    let n = token.len() as int;
    let m = other.len() as int;
    assert(token.subrange(0, 4) =~= token.take(4));
    assert(other.subrange(0, 4) =~= other.take(4));
    assert(token.subrange(n - 4, n) =~= token.skip(n - 4));
    assert(other.subrange(m - 4, m) =~= other.skip(m - 4));
    let masked = masked_bytes(token);
    assert(masked.take(4) =~= token.take(4));
    assert(masked.skip(masked.len() - 4) =~= token.skip(n - 4));
}

} // verus!
