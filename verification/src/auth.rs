//! Authentication: reading the bearer token of a request, issuing access and
//! refresh tokens, password hashing, and the decisions of the registration,
//! login and refresh endpoints.

use vstd::prelude::*;
use crate::ids::{hyphenated, uuid_string};
use crate::json::{decimal, json_string, push_decimal, push_json_string};
use crate::text::{
    chars_of, has_prefix, push_char, push_chars, split_chars, split_on, starts_with_chars, string_of,
};

verus! {

/// Why a request carries no usable token.
#[derive(Debug, Clone, Copy, PartialEq, Eq, Structural)]
pub enum AuthError {
    /// An `Authorization` header that does not start with `Bearer `.
    InvalidAuthorizationHeader,
    /// Neither an `Authorization` header nor a `token` query parameter.
    MissingAuthentication,
}

/// The text a request refused for the reason `e` is answered with.
pub open spec fn auth_error_text(e: AuthError) -> Seq<char> {
    match e {
        AuthError::InvalidAuthorizationHeader => seq!['I', 'n', 'v', 'a', 'l', 'i', 'd', ' ', 'A', 'u', 't', 'h', 'o', 'r', 'i', 'z', 'a', 't', 'i', 'o', 'n', ' ', 'h', 'e', 'a', 'd', 'e', 'r'],
        AuthError::MissingAuthentication => seq!['M', 'i', 's', 's', 'i', 'n', 'g', ' ', 'a', 'u', 't', 'h', 'e', 'n', 't', 'i', 'c', 'a', 't', 'i', 'o', 'n'],
    }
}

impl AuthError {
    /// The text a request refused for this reason is answered with.
    pub fn message(&self) -> (m: String)
        ensures
            m@ == auth_error_text(*self),
    {
        let v = match self {
            AuthError::InvalidAuthorizationHeader => vec!['I', 'n', 'v', 'a', 'l', 'i', 'd', ' ', 'A', 'u', 't', 'h', 'o', 'r', 'i', 'z', 'a', 't', 'i', 'o', 'n', ' ', 'h', 'e', 'a', 'd', 'e', 'r'],
            AuthError::MissingAuthentication => vec!['M', 'i', 's', 's', 'i', 'n', 'g', ' ', 'a', 'u', 't', 'h', 'e', 'n', 't', 'i', 'c', 'a', 't', 'i', 'o', 'n'],
        };
        assert(v@ =~= auth_error_text(*self));
        string_of(v.as_slice())
    }
}

pub open spec fn lit_bearer() -> Seq<char> {
    seq!['B', 'e', 'a', 'r', 'e', 'r', ' ']
}

pub open spec fn lit_token_param() -> Seq<char> {
    seq!['t', 'o', 'k', 'e', 'n', '=']
}

/// The value of the first `token=` parameter among the `&`-separated pieces.
pub open spec fn first_token_param(params: Seq<Seq<char>>) -> Option<Seq<char>>
    decreases params.len(),
{
    if params.len() == 0 {
        None
    } else if has_prefix(params[0], lit_token_param()) {
        Some(params[0].subrange(6, params[0].len() as int))
    } else {
        first_token_param(params.drop_first())
    }
}

/// The token a request presents: the rest of an `Authorization: Bearer `
/// header, or else the first `token=` query parameter.
pub open spec fn token_of(authorization: Option<Seq<char>>, query: Option<Seq<char>>) -> Result<Seq<char>, AuthError> {
    match authorization {
        Some(h) => if has_prefix(h, lit_bearer()) {
            Ok(h.subrange(7, h.len() as int))
        } else {
            Err(AuthError::InvalidAuthorizationHeader)
        },
        None => match query {
            Some(q) => match first_token_param(split_on(q, '&')) {
                Some(t) => Ok(t),
                None => Err(AuthError::MissingAuthentication),
            },
            None => Err(AuthError::MissingAuthentication),
        },
    }
}

/// A token presented as `Authorization: Bearer <token>` is read back exactly,
/// whatever the query string holds.
pub proof fn lemma_bearer_token_read_back(token: Seq<char>, query: Option<Seq<char>>)
    ensures
        token_of(Some(lit_bearer() + token), query) == Ok::<Seq<char>, AuthError>(token),
{
    let h = lit_bearer() + token;
    assert(h.subrange(0, 7) =~= lit_bearer());
    assert(h.subrange(7, h.len() as int) =~= token);
}

/// A request with no `Authorization` header and no query string is refused
/// as unauthenticated.
pub proof fn lemma_no_credentials_refused()
    ensures
        token_of(None, None) == Err::<Seq<char>, AuthError>(AuthError::MissingAuthentication),
{
}

proof fn lemma_first_token_param_at(ps: Seq<Seq<char>>, i: int)
    requires
        0 <= i < ps.len(),
        has_prefix(ps[i], lit_token_param()),
        forall|j: int| 0 <= j < i ==> !has_prefix(#[trigger] ps[j], lit_token_param()),
    ensures
        first_token_param(ps) == Some(ps[i].subrange(6, ps[i].len() as int)),
    decreases i,
{
    if i > 0 {
        assert(!has_prefix(ps[0], lit_token_param()));
        assert forall|j: int| 0 <= j < i - 1 implies !has_prefix(#[trigger] ps.drop_first()[j], lit_token_param()) by {
            assert(ps.drop_first()[j] == ps[j + 1]);
        }
        assert(ps.drop_first()[i - 1] == ps[i]);
        lemma_first_token_param_at(ps.drop_first(), i - 1);
    }
}

proof fn lemma_no_token_param(ps: Seq<Seq<char>>)
    requires
        forall|j: int| 0 <= j < ps.len() ==> !has_prefix(#[trigger] ps[j], lit_token_param()),
    ensures
        first_token_param(ps) is None,
    decreases ps.len(),
{
    if ps.len() > 0 {
        assert(!has_prefix(ps[0], lit_token_param()));
        assert forall|j: int| 0 <= j < ps.len() - 1 implies !has_prefix(#[trigger] ps.drop_first()[j], lit_token_param()) by {
            assert(ps.drop_first()[j] == ps[j + 1]);
        }
        lemma_no_token_param(ps.drop_first());
    }
}

/// Without an `Authorization` header, the token a request presents is the
/// rest of the first `&`-separated piece of its query string that begins with
/// `token=`, wherever that piece stands (the first piece included); a query
/// with no such piece is refused as unauthenticated.
pub proof fn lemma_query_token_is_first_token_piece(q: Seq<char>, i: int)
    ensures
        0 <= i < split_on(q, '&').len() && has_prefix(split_on(q, '&')[i], seq!['t', 'o', 'k', 'e', 'n', '='])
            && (forall|j: int| 0 <= j < i ==> !has_prefix(#[trigger] split_on(q, '&')[j], seq!['t', 'o', 'k', 'e', 'n', '=']))
            ==> token_of(None, Some(q)) == Ok::<Seq<char>, AuthError>(
            split_on(q, '&')[i].subrange(6, split_on(q, '&')[i].len() as int),
        ),
        (forall|j: int| 0 <= j < split_on(q, '&').len() ==> !has_prefix(#[trigger] split_on(q, '&')[j], seq!['t', 'o', 'k', 'e', 'n', '=']))
            ==> token_of(None, Some(q)) == Err::<Seq<char>, AuthError>(AuthError::MissingAuthentication),
{
    assert(lit_token_param() =~= seq!['t', 'o', 'k', 'e', 'n', '=']);
    let ps = split_on(q, '&');
    if 0 <= i < ps.len() && has_prefix(ps[i], lit_token_param())
        && (forall|j: int| 0 <= j < i ==> !has_prefix(#[trigger] ps[j], lit_token_param())) {
        lemma_first_token_param_at(ps, i);
    }
    if forall|j: int| 0 <= j < ps.len() ==> !has_prefix(#[trigger] ps[j], lit_token_param()) {
        lemma_no_token_param(ps);
    }
}

/// A query string that is just `token=` followed by a token without `&` (as
/// on a websocket request `/ws?token=...`) presents exactly that token.
pub proof fn lemma_sole_query_token(t: Seq<char>)
    requires
        forall|k: int| 0 <= k < t.len() ==> t[k] != '&',
    ensures
        token_of(None, Some(seq!['t', 'o', 'k', 'e', 'n', '='] + t)) == Ok::<Seq<char>, AuthError>(t),
{
    let q = seq!['t', 'o', 'k', 'e', 'n', '='] + t;
    assert forall|k: int| 0 <= k < q.len() implies q[k] != '&' by {
        if k >= 6 {
            assert(q[k] == t[k - 6]);
        }
    }
    crate::text::lemma_split_on_without_sep(q, '&');
    assert(q.subrange(0, 6) =~= seq!['t', 'o', 'k', 'e', 'n', '=']);
    assert(q.subrange(6, q.len() as int) =~= t);
    lemma_query_token_is_first_token_piece(q, 0);
}

/// The character-sequence view of an optional text.
pub open spec fn str_opt_view(o: Option<&str>) -> Option<Seq<char>> {
    match o {
        Some(s) => Some(s@),
        None => None,
    }
}

fn suffix_from(v: &[char], start: usize) -> (r: String)
    requires
        start <= v@.len(),
    ensures
        r@ == v@.subrange(start as int, v@.len() as int),
{
    let mut out = String::new();
    let mut i: usize = start;
    while i < v.len()
        invariant
            start <= i <= v@.len(),
            out@ == v@.subrange(start as int, i as int),
        decreases v@.len() - i,
    {
        push_char(&mut out, v[i]);
        assert(v@.subrange(start as int, i + 1) =~= v@.subrange(start as int, i as int).push(v@[i as int]));
        i = i + 1;
    }
    out
}

/// Reads the token from the `Authorization` header value, when the request
/// has one that is valid text, or else from the query string.
pub fn extract_token(authorization: Option<&str>, query: Option<&str>) -> (r: Result<String, AuthError>)
    ensures
        match token_of(str_opt_view(authorization), str_opt_view(query)) {
            Ok(t) => r matches Ok(s) && s@ == t,
            Err(e) => r == Err::<String, AuthError>(e),
        },
{
    match authorization {
        Some(h) => {
            let hc = chars_of(h);
            let bearer = vec!['B', 'e', 'a', 'r', 'e', 'r', ' '];
            assert(bearer@ =~= lit_bearer());
            if starts_with_chars(hc.as_slice(), bearer.as_slice()) {
                Ok(suffix_from(hc.as_slice(), 7))
            } else {
                Err(AuthError::InvalidAuthorizationHeader)
            }
        },
        None => match query {
            Some(q) => {
                let qc = chars_of(q);
                let params = split_chars(qc.as_slice(), '&');
                let prefix = vec!['t', 'o', 'k', 'e', 'n', '='];
                assert(prefix@ =~= lit_token_param());
                let mut i: usize = 0;
                assert(crate::text::views(params@).subrange(0, params@.len() as int) =~= crate::text::views(params@));
                while i < params.len()
                    invariant
                        i <= params@.len(),
                        qc@ == q@,
                        authorization is None,
                        query == Some(q),
                        prefix@ == lit_token_param(),
                        crate::text::views(params@) == split_on(qc@, '&'),
                        first_token_param(split_on(qc@, '&')) == first_token_param(
                            crate::text::views(params@).subrange(i as int, params@.len() as int),
                        ),
                    decreases params@.len() - i,
                {
                    let ghost rest = crate::text::views(params@).subrange(i as int, params@.len() as int);
                    assert(rest[0] == params@[i as int]@);
                    assert(rest.drop_first() =~= crate::text::views(params@).subrange(i + 1, params@.len() as int));
                    if starts_with_chars(params[i].as_slice(), prefix.as_slice()) {
                        assert(first_token_param(rest) == Some(params@[i as int]@.subrange(6, params@[i as int]@.len() as int)));
                        let t = suffix_from(params[i].as_slice(), 6);
                        assert(first_token_param(split_on(q@, '&')) == Some(t@));
                        return Ok(t);
                    }
                    i = i + 1;
                }
                Err(AuthError::MissingAuthentication)
            },
            None => Err(AuthError::MissingAuthentication),
        },
    }
}

/// The claims an access token carries.
pub struct Claims {
    /// The user the token was issued to.
    pub sub: u128,
    pub email: String,
    /// Expiry, in seconds since the Unix epoch.
    pub exp: usize,
}

/// Validity of an access token, in seconds.
pub const ACCESS_TOKEN_SECONDS: i64 = 900;

/// Validity of a refresh token, in seconds.
pub const REFRESH_TOKEN_SECONDS: i64 = 604800;

/// Length of a refresh token.
pub const REFRESH_TOKEN_LEN: usize = 64;

/// The claims of an access token for `user_id` and `email` that expires at
/// the timestamp `expiration` (converted as `as usize` converts).
pub fn access_claims(user_id: u128, email: &str, expiration: i64) -> (c: Claims)
    ensures
        c.sub == user_id,
        c.email@ == email@,
        c.exp == expiration as usize,
{
    Claims { sub: user_id, email: email.to_owned(), exp: expiration as usize }
}

/// The JSON text of a set of claims, fields in declaration order.
pub open spec fn claims_text(sub: u128, email: Seq<char>, exp: usize) -> Seq<char> {
    seq!['{', '"', 's', 'u', 'b', '"', ':'] + json_string(hyphenated(sub)) + seq![',', '"', 'e', 'm', 'a', 'i', 'l', '"', ':'] + json_string(email) + seq![',', '"', 'e', 'x', 'p', '"', ':']
        + decimal(exp as nat) + seq!['}']
}

/// The JSON text of `c`.
pub fn claims_json(c: &Claims) -> (j: String)
    ensures
        j@ == claims_text(c.sub, c.email@, c.exp),
{
    let mut out = String::new();
    let k1 = vec!['{', '"', 's', 'u', 'b', '"', ':'];
    let k2 = vec![',', '"', 'e', 'm', 'a', 'i', 'l', '"', ':'];
    let k3 = vec![',', '"', 'e', 'x', 'p', '"', ':'];
    assert(k1@ =~= seq!['{', '"', 's', 'u', 'b', '"', ':']);
    assert(k2@ =~= seq![',', '"', 'e', 'm', 'a', 'i', 'l', '"', ':']);
    assert(k3@ =~= seq![',', '"', 'e', 'x', 'p', '"', ':']);
    push_chars(&mut out, k1.as_slice());
    let id = uuid_string(c.sub);
    push_json_string(&mut out, id.as_str());
    push_chars(&mut out, k2.as_slice());
    push_json_string(&mut out, c.email.as_str());
    push_chars(&mut out, k3.as_slice());
    push_decimal(&mut out, c.exp);
    push_char(&mut out, '}');
    assert(out@ =~= claims_text(c.sub, c.email@, c.exp));
    out
}

/// What jsonwebtoken produces when it signs the claims text `claims` with
/// HS256 under the key `secret`, with the default header.
pub uninterp spec fn jwt_hs256(claims: Seq<char>, secret: Seq<u8>) -> Seq<char>;

/// `jsonwebtoken::encode` with the default header (HS256) and an HMAC key made
/// by `EncodingKey::from_secret`, of the claims given as JSON text (read by
/// `serde_json::value::RawValue::from_string`). When it returns a token, the
/// token is a function of the claims text and the key. It fails only when the
/// text is not JSON: for HS256 with an HMAC key, `encode` checks the key family,
/// serialises the header and the raw claims, and signs with HMAC, none of which
/// can fail. So it succeeds on every claims text of the form `claims_text`
/// (an object of two JSON strings and a decimal number). It is not stated
/// which other texts are accepted.
#[verifier::external_body]
fn sign_hs256(claims: &str, secret: &[u8]) -> (t: Option<String>)
    ensures
        t matches Some(s) ==> s@ == jwt_hs256(claims@, secret@),
        (exists|sub: u128, email: Seq<char>, exp: usize| claims@ == #[trigger] claims_text(sub, email, exp)) ==> t is Some,
{
    let raw = match serde_json::value::RawValue::from_string(claims.to_string()) {
        Ok(r) => r,
        Err(_) => return None,
    };
    let key = jsonwebtoken::EncodingKey::from_secret(secret);
    jsonwebtoken::encode(&jsonwebtoken::Header::default(), &raw, &key).ok()
}

/// Why a token could not be issued.
#[derive(Debug, Clone, Copy, PartialEq, Eq, Structural)]
pub enum TokenError {
    /// The expiry instant lies outside the range of the clock's dates.
    TimestampOutOfRange,
}

/// The signed access token for `user_id` and `email` expiring at `expiration`.
pub fn access_token_at(user_id: u128, email: &str, secret: &[u8], expiration: i64) -> (t: String)
    ensures
        t@ == jwt_hs256(claims_text(user_id, email@, expiration as usize), secret@),
{
    let claims = access_claims(user_id, email, expiration);
    let text = claims_json(&claims);
    assert(text@ == claims_text(claims.sub, claims.email@, claims.exp));
    sign_hs256(text.as_str(), secret).unwrap()
}

/// The earliest Unix timestamp chrono can represent: -262143-01-01T00:00:00Z.
pub const MIN_TIMESTAMP: i64 = -8_334_601_228_800;

/// The latest whole-second Unix timestamp chrono can represent:
/// +262142-12-31T23:59:59Z.
pub const MAX_TIMESTAMP: i64 = 8_210_266_876_799;

/// `t` is a Unix timestamp that chrono can represent.
pub open spec fn in_clock_range(t: int) -> bool {
    MIN_TIMESTAMP <= t <= MAX_TIMESTAMP
}

/// The instant `seconds` after `now`, when both lie in chrono's range.
pub open spec fn instant_after(now: int, seconds: int) -> Option<i64> {
    if in_clock_range(now) && in_clock_range(now + seconds) {
        Some((now + seconds) as i64)
    } else {
        None
    }
}

/// `chrono::Utc::now().timestamp()`: the current Unix time in whole seconds.
/// Nothing is stated of which instant it is; `Utc::now` builds its value
/// with `DateTime::from_timestamp(..).unwrap()` from a time after the epoch,
/// so the timestamp lies in chrono's range and is not negative.
#[verifier::external_body]
fn unix_now() -> (t: i64)
    ensures
        0 <= t <= MAX_TIMESTAMP,
{
    chrono::Utc::now().timestamp()
}

/// `DateTime::from_timestamp(now, 0)` followed by `checked_add_signed` of
/// `TimeDelta::seconds(seconds)`, as a Unix timestamp: `now + seconds` when
/// both instants are dates chrono represents (years -262143 to 262142), else
/// `None`. (`TimeDelta::seconds` panics beyond `i64::MAX / 1000`, which
/// `requires` rules out.)
#[verifier::external_body]
fn checked_instant_after(now: i64, seconds: i64) -> (r: Option<i64>)
    requires
        -1_000_000_000 <= seconds <= 1_000_000_000,
    ensures
        r == instant_after(now as int, seconds as int),
{
    let start = chrono::DateTime::from_timestamp(now, 0)?;
    Some(start.checked_add_signed(chrono::TimeDelta::seconds(seconds))?.timestamp())
}

/// The outcome of issuing an access token at the clock reading `now`: the
/// token for the claims expiring `ACCESS_TOKEN_SECONDS` later, or
/// `TimestampOutOfRange` when that instant leaves chrono's range.
pub open spec fn access_token_issued_at(
    r: Result<String, TokenError>,
    now: int,
    user_id: u128,
    email: Seq<char>,
    secret: Seq<u8>,
) -> bool {
    match instant_after(now, ACCESS_TOKEN_SECONDS as int) {
        Some(e) => r matches Ok(t) && t@ == jwt_hs256(claims_text(user_id, email, e as usize), secret),
        None => r == Err::<String, TokenError>(TokenError::TimestampOutOfRange),
    }
}

/// Issues, at the clock reading `now`, an access token for `user_id` and
/// `email` that expires fifteen minutes later.
pub fn access_token_from_clock(now: i64, user_id: u128, email: &str, secret: &[u8]) -> (r: Result<String, TokenError>)
    ensures
        access_token_issued_at(r, now as int, user_id, email@, secret@),
{
    match checked_instant_after(now, ACCESS_TOKEN_SECONDS) {
        Some(expiration) => Ok(access_token_at(user_id, email, secret, expiration)),
        None => Err(TokenError::TimestampOutOfRange),
    }
}

/// Issues an access token for `user_id` and `email` that expires fifteen
/// minutes from now.
pub fn generate_access_token(user_id: u128, email: &str, secret: &[u8]) -> (r: Result<String, TokenError>)
    ensures
        exists|now: int| 0 <= now <= MAX_TIMESTAMP && #[trigger] access_token_issued_at(r, now, user_id, email@, secret@),
{
    let now = unix_now();
    let r = access_token_from_clock(now, user_id, email, secret);
    assert(access_token_issued_at(r, now as int, user_id, email@, secret@));
    r
}

/// `jsonwebtoken::decode` of `token` with an HMAC key made by
/// `DecodingKey::from_secret(secret)` and `Validation::default()` (HS256 only,
/// an `exp` claim required and checked against the clock with 60 s leeway),
/// the claims read as `sub` (a UUID text, as uuid's serde impl reads it),
/// `email` (a string) and `exp` (an unsigned integer). The outcome depends on
/// the clock, so success is not stated. Stated: a token that signs the claims
/// text of some claims under `secret`, when accepted, gives back exactly those
/// claims (its payload is that text, which these reads take apart again).
#[verifier::external_body]
fn decode_access_token(token: &str, secret: &[u8]) -> (r: Option<Claims>)
    ensures
        forall|sub: u128, email: Seq<char>, exp: usize|
            token@ == #[trigger] jwt_hs256(claims_text(sub, email, exp), secret@) ==> (r matches Some(c) ==> c.sub == sub
                && c.email@ == email && c.exp == exp),
{
    let key = jsonwebtoken::DecodingKey::from_secret(secret);
    let data = jsonwebtoken::decode::<serde_json::Value>(token, &key, &jsonwebtoken::Validation::default()).ok()?;
    let sub = uuid::Uuid::parse_str(data.claims.get("sub")?.as_str()?).ok()?;
    let email = data.claims.get("email")?.as_str()?.to_string();
    let exp = usize::try_from(data.claims.get("exp")?.as_u64()?).ok()?;
    Some(Claims { sub: sub.as_u128(), email, exp })
}

/// Why a request is refused as unauthenticated (answered `401`).
#[derive(Debug, Clone, Copy, PartialEq, Eq, Structural)]
pub enum AuthRejection {
    /// The request presents no usable token.
    Missing(AuthError),
    /// The token it presents is not accepted.
    InvalidToken,
}

/// The text a request refused for the reason `e` is answered with.
pub open spec fn rejection_text(e: AuthRejection) -> Seq<char> {
    match e {
        AuthRejection::Missing(m) => auth_error_text(m),
        AuthRejection::InvalidToken => seq!['I', 'n', 'v', 'a', 'l', 'i', 'd', ' ', 't', 'o', 'k', 'e', 'n'],
    }
}

impl AuthRejection {
    /// The text a request refused for this reason is answered with.
    pub fn message(&self) -> (m: String)
        ensures
            m@ == rejection_text(*self),
    {
        match self {
            AuthRejection::Missing(e) => e.message(),
            AuthRejection::InvalidToken => {
                let v = vec!['I', 'n', 'v', 'a', 'l', 'i', 'd', ' ', 't', 'o', 'k', 'e', 'n'];
                assert(v@ =~= rejection_text(*self));
                string_of(v.as_slice())
            },
        }
    }
}

/// Authenticates a request by its `Authorization` header value and query
/// string: the token is read as `extract_token` reads it, then decoded and
/// validated under `secret`. Without a usable token the request is refused
/// for that reason; a token that does not decode is refused as invalid; an
/// accepted token that this library issued yields exactly its claims.
pub fn authenticate(authorization: Option<&str>, query: Option<&str>, secret: &[u8]) -> (r: Result<Claims, AuthRejection>)
    ensures
        match token_of(str_opt_view(authorization), str_opt_view(query)) {
            Err(e) => r == Err::<Claims, AuthRejection>(AuthRejection::Missing(e)),
            Ok(t) => {
                &&& (r is Ok || r == Err::<Claims, AuthRejection>(AuthRejection::InvalidToken))
                &&& forall|sub: u128, email: Seq<char>, exp: usize|
                    t == #[trigger] jwt_hs256(claims_text(sub, email, exp), secret@) ==> (r matches Ok(c) ==> c.sub == sub
                        && c.email@ == email && c.exp == exp)
            },
        },
{
    let token = match extract_token(authorization, query) {
        Ok(t) => t,
        Err(e) => {
            return Err(AuthRejection::Missing(e));
        },
    };
    match decode_access_token(token.as_str(), secret) {
        Some(c) => Ok(c),
        None => Err(AuthRejection::InvalidToken),
    }
}

/// A bearer header carrying an access token issued for some claims is read
/// back as exactly that token; by the contract of `authenticate`, a request
/// presenting it is then either refused as invalid or authenticated with
/// exactly the claims the token was issued with.
pub proof fn lemma_issued_token_read_back(
    sub: u128,
    email: Seq<char>,
    exp: usize,
    secret: Seq<u8>,
    query: Option<Seq<char>>,
)
    ensures
        token_of(Some(lit_bearer() + jwt_hs256(claims_text(sub, email, exp), secret)), query)
            == Ok::<Seq<char>, AuthError>(jwt_hs256(claims_text(sub, email, exp), secret)),
{
    lemma_bearer_token_read_back(jwt_hs256(claims_text(sub, email, exp), secret), query);
}

/// An ASCII letter or digit.
pub open spec fn is_alphanumeric_ascii(c: char) -> bool {
    ('A' <= c && c <= 'Z') || ('a' <= c && c <= 'z') || ('0' <= c && c <= '9')
}

/// One sample of `rand::distributions::Alphanumeric` from the thread-local
/// generator, as a character: one of the 62 ASCII letters and digits.
#[verifier::external_body]
fn random_alphanumeric() -> (c: char)
    ensures
        is_alphanumeric_ascii(c),
{
    char::from(rand::Rng::sample(&mut rand::thread_rng(), rand::distributions::Alphanumeric))
}

/// A fresh refresh token: 64 random ASCII letters and digits.
pub fn generate_refresh_token() -> (t: String)
    ensures
        t@.len() == REFRESH_TOKEN_LEN,
        forall|i: int| 0 <= i < t@.len() ==> is_alphanumeric_ascii(#[trigger] t@[i]),
{
    let mut t = String::new();
    let mut i: usize = 0;
    while i < REFRESH_TOKEN_LEN
        invariant
            i <= REFRESH_TOKEN_LEN,
            t@.len() == i,
            forall|j: int| 0 <= j < t@.len() ==> is_alphanumeric_ascii(#[trigger] t@[j]),
        decreases REFRESH_TOKEN_LEN - i,
    {
        let c = random_alphanumeric();
        push_char(&mut t, c);
        i = i + 1;
    }
    t
}

/// Whether argon2 accepts `password` against the PHC string `phc`: `None`
/// when `phc` does not parse as a password hash.
pub uninterp spec fn argon2_verifies(password: Seq<char>, phc: Seq<char>) -> Option<bool>;

/// `PasswordHash::new` on `phc`, then `Argon2::default().verify_password` of
/// the password's bytes: `None` when the hash does not parse, else whether
/// the password matches. The outcome is a function of the two texts.
#[verifier::external_body]
fn check_password(password: &str, phc: &str) -> (r: Option<bool>)
    ensures
        r == argon2_verifies(password@, phc@),
{
    match argon2::PasswordHash::new(phc) {
        Ok(h) => Some(argon2::PasswordVerifier::verify_password(&argon2::Argon2::default(), password.as_bytes(), &h).is_ok()),
        Err(_) => None,
    }
}

/// A password of at most this many characters (so at most `0xFFFF_FFFC`
/// bytes in UTF-8) is within argon2's limit of `0xFFFF_FFFF` bytes.
pub const MAX_HASHED_PASSWORD_CHARS: usize = 0x3fff_ffff;

/// `Argon2::default().hash_password` of the password's bytes with a salt from
/// `SaltString::generate(&mut OsRng)`, as a PHC string. The salt is random;
/// stated is what the argon2 documentation shows: the hash it returns parses,
/// and verifying the same password against it succeeds. With the default
/// parameters and a generated (16-byte) salt, argon2-0.5.3 fails only for a
/// password longer than `MAX_PWD_LEN` (`0xFFFF_FFFF` bytes), so every
/// password within `MAX_HASHED_PASSWORD_CHARS` characters is hashed.
#[verifier::external_body]
fn hash_password(password: &str) -> (r: Option<String>)
    ensures
        r matches Some(h) ==> argon2_verifies(password@, h@) == Some(true),
        password@.len() <= MAX_HASHED_PASSWORD_CHARS ==> r is Some,
{
    let salt = argon2::password_hash::SaltString::generate(&mut argon2::password_hash::rand_core::OsRng);
    match argon2::PasswordHasher::hash_password(&argon2::Argon2::default(), password.as_bytes(), &salt) {
        Ok(h) => Some(h.to_string()),
        Err(_) => None,
    }
}

/// A stored account, as the login endpoint reads it.
pub struct UserRecord {
    pub id: u128,
    pub email: String,
    pub password_hash: String,
}

/// The answer to looking an account up by email.
pub enum UserLookup {
    Found(UserRecord),
    NotFound,
    /// The database could not answer.
    Failed,
}

/// What the login endpoint does with a looked-up account.
#[derive(Debug, Clone, Copy, PartialEq, Eq, Structural)]
pub enum LoginDecision {
    /// No such account: answered `401 Invalid credentials`.
    UnknownUser,
    /// The lookup failed: answered `500 Database error`.
    DatabaseError,
    /// The stored hash is not a password hash.
    CorruptPasswordHash,
    /// The password does not match: a failed login is audited, then `401`.
    WrongPassword(u128),
    /// The password matches: a login is audited and tokens are issued.
    Accepted(u128),
}

/// The decision on a login attempt with `password`.
pub open spec fn login_decision(lookup: UserLookup, password: Seq<char>) -> LoginDecision {
    match lookup {
        UserLookup::Found(u) => match argon2_verifies(password, u.password_hash@) {
            Some(true) => LoginDecision::Accepted(u.id),
            Some(false) => LoginDecision::WrongPassword(u.id),
            None => LoginDecision::CorruptPasswordHash,
        },
        UserLookup::NotFound => LoginDecision::UnknownUser,
        UserLookup::Failed => LoginDecision::DatabaseError,
    }
}

/// Decides a login attempt with `password` on the looked-up account.
pub fn decide_login(lookup: &UserLookup, password: &str) -> (d: LoginDecision)
    ensures
        d == login_decision(*lookup, password@),
{
    match lookup {
        UserLookup::Found(u) => match check_password(password, u.password_hash.as_str()) {
            Some(true) => LoginDecision::Accepted(u.id),
            Some(false) => LoginDecision::WrongPassword(u.id),
            None => LoginDecision::CorruptPasswordHash,
        },
        UserLookup::NotFound => LoginDecision::UnknownUser,
        UserLookup::Failed => LoginDecision::DatabaseError,
    }
}

/// The HTTP status a login decision is answered with when it ends the
/// request; an accepted login is answered `200` with its tokens.
pub open spec fn login_status_of(d: LoginDecision) -> u16 {
    match d {
        LoginDecision::UnknownUser => 401,
        LoginDecision::WrongPassword(_) => 401,
        LoginDecision::DatabaseError => 500,
        LoginDecision::CorruptPasswordHash => 500,
        LoginDecision::Accepted(_) => 200,
    }
}

/// The HTTP status that ends a request with login decision `d`.
pub fn login_status(d: LoginDecision) -> (s: u16)
    ensures
        s == login_status_of(d),
{
    match d {
        LoginDecision::UnknownUser => 401,
        LoginDecision::WrongPassword(_) => 401,
        LoginDecision::DatabaseError => 500,
        LoginDecision::CorruptPasswordHash => 500,
        LoginDecision::Accepted(_) => 200,
    }
}

/// The text a login refused with decision `d` is answered with, if `d`
/// refuses it.
pub open spec fn login_refusal_text(d: LoginDecision) -> Option<Seq<char>> {
    match d {
        LoginDecision::UnknownUser => Some(seq!['I', 'n', 'v', 'a', 'l', 'i', 'd', ' ', 'c', 'r', 'e', 'd', 'e', 'n', 't', 'i', 'a', 'l', 's']),
        LoginDecision::WrongPassword(_) => Some(seq!['I', 'n', 'v', 'a', 'l', 'i', 'd', ' ', 'c', 'r', 'e', 'd', 'e', 'n', 't', 'i', 'a', 'l', 's']),
        LoginDecision::DatabaseError => Some(seq!['D', 'a', 't', 'a', 'b', 'a', 's', 'e', ' ', 'e', 'r', 'r', 'o', 'r']),
        _ => None,
    }
}

/// The text a login refused with decision `d` is answered with: `Invalid
/// credentials` for an unknown user or a wrong password, `Database error`
/// when the lookup failed; `None` for a decision that refuses nothing with a
/// text.
pub fn login_refusal(d: LoginDecision) -> (t: Option<String>)
    ensures
        match login_refusal_text(d) {
            Some(x) => t matches Some(s) && s@ == x,
            None => t is None,
        },
{
    match d {
        LoginDecision::UnknownUser | LoginDecision::WrongPassword(_) => {
            let v = vec!['I', 'n', 'v', 'a', 'l', 'i', 'd', ' ', 'c', 'r', 'e', 'd', 'e', 'n', 't', 'i', 'a', 'l', 's'];
            assert(v@ =~= seq!['I', 'n', 'v', 'a', 'l', 'i', 'd', ' ', 'c', 'r', 'e', 'd', 'e', 'n', 't', 'i', 'a', 'l', 's']);
            Some(string_of(v.as_slice()))
        },
        LoginDecision::DatabaseError => {
            let v = vec!['D', 'a', 't', 'a', 'b', 'a', 's', 'e', ' ', 'e', 'r', 'r', 'o', 'r'];
            assert(v@ =~= seq!['D', 'a', 't', 'a', 'b', 'a', 's', 'e', ' ', 'e', 'r', 'r', 'o', 'r']);
            Some(string_of(v.as_slice()))
        },
        _ => None,
    }
}

/// A password stored at registration is accepted at login: when the stored
/// hash verifies `password`, logging in with it is accepted for that account,
/// and with a password it does not verify the attempt is refused with `401`.
pub proof fn lemma_stored_password_decides_login(record: UserRecord, password: Seq<char>)
    requires
        argon2_verifies(password, record.password_hash@) is Some,
    ensures
        argon2_verifies(password, record.password_hash@) == Some(true)
            ==> login_decision(UserLookup::Found(record), password) == LoginDecision::Accepted(record.id),
        argon2_verifies(password, record.password_hash@) == Some(false)
            ==> login_status_of(login_decision(UserLookup::Found(record), password)) == 401,
{
}

/// Tokens handed out at login.
pub struct IssuedTokens {
    pub access_token: String,
    pub refresh_token: String,
    /// Expiry of the refresh token, in seconds since the Unix epoch.
    pub refresh_expires_at: i64,
}

/// The outcome of issuing login tokens at the clock reading `now`: an access
/// token whose claims expire `ACCESS_TOKEN_SECONDS` later and a refresh
/// token expiring `REFRESH_TOKEN_SECONDS` later, or `TimestampOutOfRange`
/// when either instant leaves chrono's range. (The refresh token itself is
/// not fixed here.)
pub open spec fn tokens_issued_at(
    r: Result<IssuedTokens, TokenError>,
    now: int,
    user_id: u128,
    email: Seq<char>,
    secret: Seq<u8>,
) -> bool {
    match (instant_after(now, ACCESS_TOKEN_SECONDS as int), instant_after(now, REFRESH_TOKEN_SECONDS as int)) {
        (Some(a), Some(f)) => r matches Ok(t) && t.access_token@ == jwt_hs256(claims_text(user_id, email, a as usize), secret)
            && t.refresh_expires_at == f,
        _ => r == Err::<IssuedTokens, TokenError>(TokenError::TimestampOutOfRange),
    }
}

/// Issues, at the clock reading `now`, the tokens of a login: the access
/// token, the given refresh token, and the refresh token's expiry.
pub fn issue_tokens_at(now: i64, user_id: u128, email: &str, secret: &[u8], refresh_token: String) -> (r: Result<IssuedTokens, TokenError>)
    ensures
        tokens_issued_at(r, now as int, user_id, email@, secret@),
        r matches Ok(t) ==> t.refresh_token@ == refresh_token@,
{
    let access_token = match access_token_from_clock(now, user_id, email, secret) {
        Ok(t) => t,
        Err(e) => {
            return Err(e);
        },
    };
    match checked_instant_after(now, REFRESH_TOKEN_SECONDS) {
        Some(refresh_expires_at) => Ok(IssuedTokens { access_token, refresh_token, refresh_expires_at }),
        None => Err(TokenError::TimestampOutOfRange),
    }
}

/// Issues an access token, a refresh token, and the refresh token's expiry
/// seven days from now, for a user who has just logged in.
pub fn issue_tokens(user_id: u128, email: &str, secret: &[u8]) -> (r: Result<IssuedTokens, TokenError>)
    ensures
        exists|now: int| 0 <= now <= MAX_TIMESTAMP && #[trigger] tokens_issued_at(r, now, user_id, email@, secret@),
        r matches Ok(t) ==> {
            &&& t.refresh_token@.len() == REFRESH_TOKEN_LEN
            &&& forall|i: int| 0 <= i < t.refresh_token@.len() ==> is_alphanumeric_ascii(#[trigger] t.refresh_token@[i])
        },
{
    let now = unix_now();
    let refresh_token = generate_refresh_token();
    let r = issue_tokens_at(now, user_id, email, secret, refresh_token);
    assert(tokens_issued_at(r, now as int, user_id, email@, secret@));
    r
}

/// The body of a successful login or refresh.
pub struct AuthResponse {
    pub access_token: String,
    pub token_type: String,
}

/// The response carrying `access_token` as a bearer token.
pub fn bearer_response(access_token: String) -> (r: AuthResponse)
    ensures
        r.access_token@ == access_token@,
        r.token_type@ == seq!['B', 'e', 'a', 'r', 'e', 'r'],
{
    let w = vec!['B', 'e', 'a', 'r', 'e', 'r'];
    assert(w@ =~= seq!['B', 'e', 'a', 'r', 'e', 'r']);
    AuthResponse { access_token, token_type: string_of(w.as_slice()) }
}

/// What the registration endpoint does once the domain is stored.
pub enum RegisterStep {
    /// The domain could not be stored: answered `500`.
    ServerError,
    /// The password could not be hashed (it is longer than argon2 accepts).
    HashFailed,
    /// Store the account with this domain and password hash.
    InsertUser { domain_id: u128, password_hash: String },
}

/// Decides the next step of a registration with `password`, given the id of
/// the stored domain, if storing it succeeded.
pub fn after_domain_upsert(domain_id: Option<u128>, password: &str) -> (s: RegisterStep)
    ensures
        domain_id is None ==> s is ServerError,
        domain_id matches Some(d) ==> match s {
            RegisterStep::InsertUser { domain_id: d2, password_hash } => d2 == d && argon2_verifies(password@, password_hash@) == Some(true),
            RegisterStep::HashFailed => password@.len() > MAX_HASHED_PASSWORD_CHARS,
            RegisterStep::ServerError => false,
        },
{
    match domain_id {
        None => RegisterStep::ServerError,
        Some(d) => match hash_password(password) {
            Some(h) => RegisterStep::InsertUser { domain_id: d, password_hash: h },
            None => RegisterStep::HashFailed,
        },
    }
}

/// The outcome of a registration once the account insert has been tried.
#[derive(Debug, Clone, Copy, PartialEq, Eq, Structural)]
pub enum RegisterOutcome {
    /// Stored: the registration is audited and answered `201`.
    Created(u128),
    /// Not stored: answered `500`.
    ServerError,
}

/// The outcome of a registration, given the id of the stored account, if
/// storing it succeeded.
pub fn after_user_insert(user_id: Option<u128>) -> (o: RegisterOutcome)
    ensures
        o == match user_id {
            Some(u) => RegisterOutcome::Created(u),
            None => RegisterOutcome::ServerError,
        },
{
    match user_id {
        Some(u) => RegisterOutcome::Created(u),
        None => RegisterOutcome::ServerError,
    }
}

/// The HTTP status a registration outcome is answered with.
pub fn register_status(o: RegisterOutcome) -> (s: u16)
    ensures
        s == match o {
            RegisterOutcome::Created(_) => 201u16,
            RegisterOutcome::ServerError => 500u16,
        },
{
    match o {
        RegisterOutcome::Created(_) => 201,
        RegisterOutcome::ServerError => 500,
    }
}

/// An unexpired refresh token's owner, as the refresh endpoint reads it.
pub struct RefreshRow {
    pub user_id: u128,
    pub email: String,
}

/// The answer to a refresh request at the clock reading `now`: `None` (answered
/// `401`) without a matching unexpired token; otherwise a bearer response with
/// an access token for its owner expiring `ACCESS_TOKEN_SECONDS` later, or
/// `TimestampOutOfRange` when that instant leaves chrono's range.
pub open spec fn refresh_answered_at(
    r: Result<Option<AuthResponse>, TokenError>,
    row: Option<RefreshRow>,
    now: int,
    secret: Seq<u8>,
) -> bool {
    match row {
        None => r matches Ok(None),
        Some(w) => match instant_after(now, ACCESS_TOKEN_SECONDS as int) {
            Some(e) => r matches Ok(Some(a))
                && a.token_type@ == seq!['B', 'e', 'a', 'r', 'e', 'r']
                && a.access_token@ == jwt_hs256(claims_text(w.user_id, w.email@, e as usize), secret),
            None => r == Err::<Option<AuthResponse>, TokenError>(TokenError::TimestampOutOfRange),
        },
    }
}

/// Answers a refresh request at the clock reading `now`.
pub fn refresh_access_at(row: Option<RefreshRow>, now: i64, secret: &[u8]) -> (r: Result<Option<AuthResponse>, TokenError>)
    ensures
        refresh_answered_at(r, row, now as int, secret@),
{
    match row {
        None => Ok(None),
        Some(w) => match access_token_from_clock(now, w.user_id, w.email.as_str(), secret) {
            Ok(t) => Ok(Some(bearer_response(t))),
            Err(e) => Err(e),
        },
    }
}

/// Answers a refresh request: with no matching unexpired token (or a failed
/// lookup), `None`, answered `401`; otherwise a new access token for its owner
/// that expires fifteen minutes from now.
pub fn refresh_access(row: Option<RefreshRow>, secret: &[u8]) -> (r: Result<Option<AuthResponse>, TokenError>)
    ensures
        exists|now: int| 0 <= now <= MAX_TIMESTAMP && #[trigger] refresh_answered_at(r, row, now, secret@),
{
    let ghost row0 = row;
    let now = unix_now();
    let r = refresh_access_at(row, now, secret);
    assert(refresh_answered_at(r, row0, now as int, secret@));
    r
}

} // verus!
