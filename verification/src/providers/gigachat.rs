//! GigaChat: a stored token is exchanged for an access token, which is kept until
//! shortly before it expires.
use vstd::prelude::*;

use crate::errors::{
    map_http_status, transport_error, AppError, EndpointCategory, HttpProblem, ProviderHttpError,
};
use crate::providers::openai_compatible::short_reason;
use crate::providers::{AuthScheme, ProviderKind, ProviderSpec};
use crate::text::{cat2, cat3, chars_of};
use crate::text_map::TextMap;

verus! {

broadcast use vstd::string::group_string_axioms;

/// What is known of GigaChat.
pub fn spec() -> (r: ProviderSpec)
    ensures
        crate::providers::describes(r, ProviderKind::GigaChat),
{
    let r = ProviderSpec {
        kind: ProviderKind::GigaChat,
        display_name: "GigaChat",
        default_base_url: "https://gigachat.devices.sberbank.ru/api/v1",
        default_model: "GigaChat",
        auth_scheme: AuthScheme::Bearer,
        extra_headers: &[],
        suggested_models: &[],
    };
    assert(crate::providers::header_texts(r.extra_headers@)
        =~= crate::providers::provider_headers(ProviderKind::GigaChat));
    assert(crate::providers::literal_texts(r.suggested_models@)
        =~= crate::providers::provider_suggestions(ProviderKind::GigaChat));
    r
}

/// Where a stored token is exchanged.
pub const OAUTH_URL: &'static str = "https://ngw.devices.sberbank.ru:9443/api/v2/oauth";

/// The scope that an access token is asked for unless the environment says
/// otherwise.
pub const DEFAULT_SCOPE: &'static str = "GIGACHAT_API_PERS";

/// How long before its expiry an access token is no longer used.
pub const TOKEN_EXPIRY_SKEW_MS: u64 = 60_000;

/// How long an access token without an expiry is used: 25 minutes.
pub const FALLBACK_TOKEN_TTL_MS: u64 = 1_500_000;

/// An access token that is kept.
#[derive(Debug, PartialEq, Eq)]
pub struct CachedAccessToken {
    pub access_token: String,
    pub expires_at_ms: u64,
}

/// The access tokens that are kept.
#[derive(Debug, PartialEq, Eq)]
pub struct GigaChatTokenCache {
    pub tokens: TextMap<CachedAccessToken>,
}

/// Whether an access token can still be used.
pub open spec fn fresh(token: CachedAccessToken, now_ms: u64) -> bool {
    now_ms + TOKEN_EXPIRY_SKEW_MS < token.expires_at_ms
}

/// The access token that is kept for a key and can still be used.
pub open spec fn cached(
    tokens: Map<Seq<char>, CachedAccessToken>,
    key: Seq<char>,
    now_ms: u64,
) -> Option<Seq<char>> {
    if tokens.dom().contains(key) && fresh(tokens[key], now_ms) {
        Some(tokens[key].access_token@)
    } else {
        None
    }
}

impl Default for GigaChatTokenCache {
    fn default() -> (r: Self)
        ensures
            r.tokens.map() == Map::<Seq<char>, CachedAccessToken>::empty(),
    {
        GigaChatTokenCache { tokens: TextMap::new() }
    }
}

impl GigaChatTokenCache {
    /// The access token that is kept for a key, unless it expires within the
    /// next minute.
    pub fn get(&self, key: &str, now_ms: u64) -> (r: Option<String>)
        ensures
            crate::text::option_text(r) == cached(self.tokens.map(), key@, now_ms),
    {
        match self.tokens.get(key) {
            Some(token) => {
                if token.expires_at_ms.saturating_sub(TOKEN_EXPIRY_SKEW_MS) > now_ms {
                    Some(token.access_token.clone())
                } else {
                    None
                }
            },
            None => None,
        }
    }

    /// Keeps an access token.
    pub fn insert(&mut self, key: String, access_token: String, expires_at_ms: u64)
        ensures
            final(self).tokens.map() == old(self).tokens.map().insert(
                key@,
                (CachedAccessToken { access_token, expires_at_ms }),
            ),
    {
        self.tokens.insert(key, CachedAccessToken { access_token, expires_at_ms });
    }

    /// Forgets an access token.
    pub fn invalidate(&mut self, key: &str)
        ensures
            final(self).tokens.map() == old(self).tokens.map().remove(key@),
    {
        self.tokens.remove(key);
    }
}

/// Where a stored token is exchanged.
pub fn default_oauth_url() -> (r: String)
    ensures
        r@ == OAUTH_URL@,
{
    OAUTH_URL.to_string()
}

/// The scope of an access token: as the environment says, by its newer name
/// first, else the default.
pub fn oauth_scope(configured: Option<String>, legacy: Option<String>) -> (r: String)
    ensures
        r@ == (match configured {
            Some(scope) => scope@,
            None => match legacy {
                Some(scope) => scope@,
                None => DEFAULT_SCOPE@,
            },
        }),
{
    match configured {
        Some(scope) => scope,
        None => match legacy {
            Some(scope) => scope,
            None => DEFAULT_SCOPE.to_string(),
        },
    }
}

/// The key that an access token is kept under.
pub fn cache_key(scope: &str, stored_token: &str) -> (r: String)
    ensures
        r@ == scope@ + ":"@ + stored_token@,
{
    cat3(scope, ":", stored_token)
}

/// How often `c` stands in a text.
pub open spec fn occurrences(s: Seq<char>, c: char) -> nat
    decreases s.len(),
{
    if s.len() == 0 {
        0
    } else {
        occurrences(s.drop_last(), c) + (if s.last() == c {
            1nat
        } else {
            0nat
        })
    }
}

/// Whether a token is an access token already: it has three parts.
pub open spec fn is_access_token(token: Seq<char>) -> bool {
    occurrences(token, '.') >= 2
}

/// Whether a token is an access token already.
pub fn looks_like_access_token(token: &str) -> (r: bool)
    ensures
        r == is_access_token(token@),
{
    let cs = chars_of(token);
    let mut dots: usize = 0;
    let mut i: usize = 0;
    assert(cs@.take(0) =~= Seq::<char>::empty());
    while i < cs.len()
        invariant
            cs@ == token@,
            i <= cs.len(),
            dots <= i,
            dots == occurrences(cs@.take(i as int), '.'),
        decreases cs.len() - i,
    {
        assert(cs@.take(i + 1).drop_last() =~= cs@.take(i as int));
        if cs[i] == '.' {
            dots = dots + 1;
        }
        i = i + 1;
    }
    assert(cs@.take(i as int) =~= cs@);
    dots >= 2
}

/// An expiry in milliseconds: a smaller number counts seconds.
pub open spec fn expiry_ms(value: u64) -> u64 {
    if value > 10_000_000_000 {
        value
    } else {
        (value * 1000) as u64
    }
}

/// An expiry in milliseconds.
pub fn normalize_expires_at_ms(value: u64) -> (r: u64)
    ensures
        r == expiry_ms(value),
        value <= 10_000_000_000 ==> r == value * 1000,
{
    if value > 10_000_000_000 {
        value
    } else {
        value * 1000
    }
}

/// How a request gets its bearer token.
#[derive(Debug, PartialEq, Eq)]
pub enum TokenStep {
    /// This token is used.
    Use(String),
    /// The stored token is exchanged first.
    Exchange,
}

/// How a request gets its bearer token: an access token is used as it is, and so
/// is one that is kept and can still be used.
pub fn bearer_token(cache: &GigaChatTokenCache, scope: &str, stored_token: &str, now_ms: u64) -> (r:
    TokenStep)
    ensures
        if is_access_token(stored_token@) {
            r matches TokenStep::Use(token) && token@ == stored_token@
        } else {
            match cached(cache.tokens.map(), scope@ + ":"@ + stored_token@, now_ms) {
                Some(access) => r matches TokenStep::Use(token) && token@ == access,
                None => r is Exchange,
            }
        },
{
    if looks_like_access_token(stored_token) {
        return TokenStep::Use(stored_token.to_string());
    }
    let key = cache_key(scope, stored_token);
    match cache.get(key.as_str(), now_ms) {
        Some(access_token) => TokenStep::Use(access_token),
        None => TokenStep::Exchange,
    }
}

/// How a request that was turned down gets a new bearer token: what was kept is
/// forgotten.
pub fn refresh_bearer_token(cache: &mut GigaChatTokenCache, scope: &str, stored_token: &str) -> (r:
    TokenStep)
    ensures
        final(cache).tokens.map() == old(cache).tokens.map().remove(
            scope@ + ":"@ + stored_token@,
        ),
        if is_access_token(stored_token@) {
            r matches TokenStep::Use(token) && token@ == stored_token@
        } else {
            r is Exchange
        },
{
    let key = cache_key(scope, stored_token);
    cache.invalidate(key.as_str());
    if looks_like_access_token(stored_token) {
        TokenStep::Use(stored_token.to_string())
    } else {
        TokenStep::Exchange
    }
}

/// The value of the header with which a stored token is exchanged.
pub fn oauth_authorization(stored_token: &str) -> (r: String)
    ensures
        r@ == "Basic "@ + stored_token@,
{
    cat2("Basic ", stored_token)
}

/// An answer to the exchange of a token, decoded.
#[derive(Debug, PartialEq, Eq)]
pub struct GigaChatOAuthResponse {
    pub access_token: String,
    pub expires_at: Option<u64>,
}

/// Whether an error is about the exchange of a token.
pub open spec fn at_oauth(e: ProviderHttpError) -> bool {
    e.provider@ == "gigachat"@ && (e.endpoint matches EndpointCategory::Other(name) && name@
        == "oauth"@)
}

/// When an access token expires: as the answer says, else after a time of its
/// own.
pub open spec fn expires(answer: GigaChatOAuthResponse, now_ms: u64) -> u64 {
    match answer.expires_at {
        Some(value) => expiry_ms(value),
        None => if now_ms + FALLBACK_TOKEN_TTL_MS > u64::MAX {
            u64::MAX
        } else {
            (now_ms + FALLBACK_TOKEN_TTL_MS) as u64
        },
    }
}

/// What the answer to the exchange of a token comes to: the access token, which
/// is kept. `decoded` is the body's JSON, or why it could not be decoded.
pub fn take_oauth_response(
    cache: &mut GigaChatTokenCache,
    scope: &str,
    stored_token: &str,
    status: u16,
    body: &str,
    decoded: Result<GigaChatOAuthResponse, String>,
    now_ms: u64,
) -> (r: Result<String, AppError>)
    ensures
        if !crate::providers::openai_compatible::successful(status) {
            &&& *final(cache) == *old(cache)
            &&& r matches Err(AppError::ProviderHttp(e)) && at_oauth(e) && e.status == Some(status)
                && e.problem == crate::errors::status_problem(status, None) && e.reason@
                == crate::providers::openai_compatible::reason_of(body@)
        } else {
            match decoded {
                Err(reason) => {
                    &&& *final(cache) == *old(cache)
                    &&& r matches Err(AppError::ProviderHttp(e)) && at_oauth(e) && e.status == Some(
                        200u16,
                    ) && e.problem == HttpProblem::UnexpectedFormat && e.reason@ == reason@
                },
                Ok(answer) => {
                    &&& r == Ok::<String, AppError>(answer.access_token)
                    &&& final(cache).tokens.map() == old(cache).tokens.map().insert(
                        scope@ + ":"@ + stored_token@,
                        (CachedAccessToken {
                            access_token: answer.access_token,
                            expires_at_ms: expires(answer, now_ms),
                        }),
                    )
                },
            }
        },
{
    let endpoint = EndpointCategory::Other("oauth".to_string());
    if !(status >= 200 && status < 300) {
        let reason = short_reason(body);
        return Err(
            AppError::ProviderHttp(
                map_http_status(
                    ProviderKind::GigaChat.name(),
                    endpoint,
                    status,
                    None,
                    reason.as_str(),
                ),
            ),
        );
    }
    let answer = match decoded {
        Ok(answer) => answer,
        Err(reason) => {
            return Err(
                AppError::ProviderHttp(
                    ProviderHttpError {
                        provider: ProviderKind::GigaChat.name().to_string(),
                        endpoint,
                        status: Some(200),
                        problem: HttpProblem::UnexpectedFormat,
                        reason,
                    },
                ),
            );
        },
    };
    let expires_at_ms: u64 = match answer.expires_at {
        Some(value) => normalize_expires_at_ms(value),
        None => now_ms.saturating_add(FALLBACK_TOKEN_TTL_MS),
    };
    let access_token = answer.access_token;
    let key = cache_key(scope, stored_token);
    cache.insert(key, access_token.clone(), expires_at_ms);
    Ok(access_token)
}

/// The error of an exchange of a token that broke off.
pub fn oauth_network_error(status: Option<u16>, decode_failed: bool, reason: &str) -> (r: AppError)
    ensures
        r matches AppError::ProviderHttp(e) && at_oauth(e) && e.status == status && e.reason@
            == reason@ && e.problem == (if decode_failed {
            HttpProblem::UnexpectedFormat
        } else {
            HttpProblem::Network
        }),
{
    transport_error(
        ProviderKind::GigaChat.name(),
        EndpointCategory::Other("oauth".to_string()),
        status,
        decode_failed,
        reason,
    )
}

/// Whether a request is made again with a new access token: one to GigaChat with
/// an exchanged token that was turned down as unauthorized.
pub fn should_refresh_gigachat_token<T>(
    provider: ProviderKind,
    stored_token: &str,
    result: &Result<T, AppError>,
) -> (r: bool)
    ensures
        r == (provider == ProviderKind::GigaChat && !is_access_token(stored_token@) && (
        *result matches Err(AppError::ProviderHttp(e)) && e.status == Some(401u16))),
{
    if provider != ProviderKind::GigaChat || looks_like_access_token(stored_token) {
        return false;
    }
    match result {
        Err(AppError::ProviderHttp(error)) => match error.status {
            Some(status) => status == 401,
            None => false,
        },
        _ => false,
    }
}

/// An access token that is kept is given back until a minute before it expires,
/// and not after.
pub proof fn kept_token_is_given_back_while_fresh(
    tokens: Map<Seq<char>, CachedAccessToken>,
    key: Seq<char>,
    token: CachedAccessToken,
    now_ms: u64,
)
    ensures
        now_ms + TOKEN_EXPIRY_SKEW_MS < token.expires_at_ms ==> cached(
            tokens.insert(key, token),
            key,
            now_ms,
        ) == Some(token.access_token@),
        now_ms + TOKEN_EXPIRY_SKEW_MS >= token.expires_at_ms ==> cached(
            tokens.insert(key, token),
            key,
            now_ms,
        ) is None,
{
}

/// An access token that was forgotten is not given back, and the others stay.
pub proof fn forgotten_token_is_gone(
    tokens: Map<Seq<char>, CachedAccessToken>,
    key: Seq<char>,
    other: Seq<char>,
    now_ms: u64,
)
    ensures
        cached(tokens.remove(key), key, now_ms) is None,
        other != key ==> cached(tokens.remove(key), other, now_ms) == cached(
            tokens,
            other,
            now_ms,
        ),
{
}

/// A token is used until a minute before it expires, and not after: once it is
/// too old it stays so, and it is never used when it has expired.
pub proof fn a_token_is_left_in_time(token: CachedAccessToken, now_ms: u64, later_ms: u64)
    requires
        now_ms <= later_ms,
    ensures
        now_ms >= token.expires_at_ms ==> !fresh(token, now_ms),
        now_ms + 60_000 >= token.expires_at_ms ==> !fresh(token, now_ms),
        now_ms + 60_000 < token.expires_at_ms ==> fresh(token, now_ms),
        !fresh(token, now_ms) ==> !fresh(token, later_ms),
{
}

/// Every character of a text is counted, and none twice.
pub proof fn characters_are_counted_one_by_one(one: Seq<char>, two: Seq<char>, c: char, d: char)
    ensures
        occurrences(one + two, c) == occurrences(one, c) + occurrences(two, c),
        occurrences(seq![d], c) == (if d == c {
            1nat
        } else {
            0nat
        }),
    decreases two.len(),
{
    assert(seq![d].drop_last() =~= Seq::<char>::empty());
    assert(occurrences(Seq::<char>::empty(), c) == 0);
    if two.len() == 0 {
        assert(one + two =~= one);
    } else {
        characters_are_counted_one_by_one(one, two.drop_last(), c, d);
        assert((one + two).drop_last() =~= one + two.drop_last());
        assert((one + two).last() == two.last());
    }
}

/// A token of three parts with dots between them is ready to be used; one without
/// a second dot has to be exchanged.
pub proof fn tokens_with_two_dots_are_ready(a: Seq<char>, b: Seq<char>, c: Seq<char>)
    ensures
        is_access_token(a + "."@ + b + "."@ + c),
        occurrences(a, '.') == 0 && occurrences(b, '.') == 0 ==> !is_access_token(a + "."@ + b)
            && !is_access_token(a),
{
    reveal_strlit(".");
    assert("."@ =~= seq!['.']);
    characters_are_counted_one_by_one(a, "."@, '.', '.');
    characters_are_counted_one_by_one(a + "."@, b, '.', '.');
    characters_are_counted_one_by_one(a + "."@ + b, "."@, '.', '.');
    characters_are_counted_one_by_one(a + "."@ + b + "."@, c, '.', '.');
}

/// A time in seconds is brought to milliseconds, one in milliseconds stays; either
/// way it is kept in milliseconds.
pub proof fn expiry_is_kept_in_milliseconds(seconds: u64)
    requires
        1_000_000_000 <= seconds <= 10_000_000_000,
    ensures
        expiry_ms(seconds) == seconds * 1000,
        expiry_ms((seconds * 1000) as u64) == seconds * 1000,
        expiry_ms(expiry_ms(seconds)) == expiry_ms(seconds),
{
}

/// A token that is answered with a time expires then; one without expires
/// twenty-five minutes after it was answered, as far as that can be counted.
pub proof fn answered_tokens_expire(answer: GigaChatOAuthResponse, now_ms: u64)
    ensures
        answer.expires_at matches Some(value) && value > 10_000_000_000 ==> expires(answer, now_ms)
            == answer.expires_at->0,
        answer.expires_at matches Some(value) && value <= 10_000_000_000 ==> expires(
            answer,
            now_ms,
        ) == answer.expires_at->0 * 1000,
        answer.expires_at is None && now_ms + 1_500_000 <= u64::MAX ==> expires(answer, now_ms)
            == now_ms + 1_500_000,
        answer.expires_at is None ==> expires(answer, now_ms) >= now_ms,
{
}

} // verus!
