//! Checking the access tokens that clients present to the server: the token's
//! `kid` header picks the RSA key from the identity provider's key set
//! (JWKS), and the token must carry a valid RS256 signature by that key, the
//! expected issuer, the `account` audience and an unexpired `exp`.

use vstd::prelude::*;

use jsonwebtoken::{decode, decode_header, Algorithm, DecodingKey, Validation};

use crate::text::str_eq;

verus! {

/// The identity provider's realm: issuer of the tokens.
pub const ISSUER: &'static str = "http://localhost:8080/realms/my-realm";

/// The OpenID Connect client that this program registers as.
pub const CLIENT_ID: &'static str = "my-client";

/// The audience a token must name.
pub const AUDIENCE: &'static str = "account";

/// A key that checks token signatures.
#[verifier::external_type_specification]
#[verifier::external_body]
pub struct ExDecodingKey(jsonwebtoken::DecodingKey);

/// An error reported by the token library.
#[verifier::external_type_specification]
#[verifier::external_body]
pub struct ExJwtError(jsonwebtoken::errors::Error);

/// The `aud` claim: one audience or several.
pub enum Audience {
    Single(String),
    Multiple(Vec<String>),
}

impl Audience {
    /// Whether `expected` is among the audiences.
    pub open spec fn spec_contains(self, expected: Seq<char>) -> bool {
        match self {
            Audience::Single(a) => a@ == expected,
            Audience::Multiple(v) => exists|i: int| 0 <= i < v.len() && #[trigger] v[i]@ == expected,
        }
    }

    /// Whether `expected` is among the audiences.
    pub fn contains(&self, expected: &str) -> (r: bool)
        ensures
            r == self.spec_contains(expected@),
    {
        match self {
            Audience::Single(a) => str_eq(a.as_str(), expected),
            Audience::Multiple(v) => any_equals(v, expected),
        }
    }
}

/// Whether some string of `v` is `expected`.
pub fn any_equals(v: &Vec<String>, expected: &str) -> (r: bool)
    ensures
        r == exists|i: int| 0 <= i < v.len() && #[trigger] v[i]@ == expected@,
{
    let n = v.len();
    let mut i: usize = 0;
    while i < n
        invariant
            n == v@.len(),
            i <= n,
            forall|j: int| 0 <= j < i ==> #[trigger] v[j]@ != expected@,
        decreases n - i,
    {
        if str_eq(v[i].as_str(), expected) {
            assert(v[i as int]@ == expected@);
            return true;
        }
        i = i + 1;
    }
    false
}

/// One key of the key set: the values of its `kid`, `n` and `e` members
/// when they are JSON strings.
pub struct Jwk {
    pub kid: Option<String>,
    pub n: Option<String>,
    pub e: Option<String>,
}

/// The key set: its `keys` member when that is a JSON array.
pub struct Jwks {
    pub keys: Option<Vec<Jwk>>,
}

/// Why a token was refused.
#[derive(Debug, PartialEq, Eq)]
pub enum JwtError {
    /// The token has no `kid` in its header.
    MissingKid,
    /// The key set has no `keys` array.
    InvalidJwks,
    /// No key of the set has the token's `kid`.
    NoMatchingKey,
    /// The matching key has no modulus `n`.
    MissingN,
    /// The matching key has no exponent `e`.
    MissingE,
    /// The token carries no subject.
    MissingSubject,
    /// The token library refused the token or the key; its message.
    Rejected(String),
}

impl JwtError {
    /// The text that reports this refusal.
    pub fn describe(&self) -> (r: String)
        ensures
            match self {
                JwtError::MissingKid => r@ == "Missing kid"@,
                JwtError::InvalidJwks => r@ == "Invalid JWKS"@,
                JwtError::NoMatchingKey => r@ == "No matching key for kid"@,
                JwtError::MissingN => r@ == "Missing n"@,
                JwtError::MissingE => r@ == "Missing e"@,
                JwtError::MissingSubject => r@ == "Missing sub"@,
                JwtError::Rejected(m) => r@ == m@,
            },
    {
        match self {
            JwtError::MissingKid => "Missing kid".to_owned(),
            JwtError::InvalidJwks => "Invalid JWKS".to_owned(),
            JwtError::NoMatchingKey => "No matching key for kid".to_owned(),
            JwtError::MissingN => "Missing n".to_owned(),
            JwtError::MissingE => "Missing e".to_owned(),
            JwtError::MissingSubject => "Missing sub".to_owned(),
            JwtError::Rejected(m) => m.clone(),
        }
    }
}

/// The result of reading a token's header: `None` when the header cannot
/// be read, else its `kid`, if any.
pub uninterp spec fn header_kid_spec(token: Seq<char>) -> Option<Option<Seq<char>>>;

/// Whether RSA components `n` and `e` (base64url text) make a key.
pub uninterp spec fn rsa_components_valid(n: Seq<char>, e: Seq<char>) -> bool;

/// Calls `jsonwebtoken::decode_header` and keeps the header's `kid`; the
/// result is named `header_kid_spec`.
#[verifier::external_body]
pub(crate) fn jwt_header_kid(token: &str) -> (r: Result<Option<String>, jsonwebtoken::errors::Error>)
    ensures
        match r {
            Ok(Some(k)) => header_kid_spec(token@) == Some(Some(k@)),
            Ok(None) => header_kid_spec(token@) == Some(None::<Seq<char>>),
            Err(_) => header_kid_spec(token@) is None,
        },
{
    decode_header(token).map(|h| h.kid)
}

/// Calls `DecodingKey::from_rsa_components`; whether it succeeds is named
/// `rsa_components_valid`.
#[verifier::external_body]
pub(crate) fn rsa_decoding_key(n: &str, e: &str) -> (r: Result<DecodingKey, jsonwebtoken::errors::Error>)
    ensures
        r is Ok <==> rsa_components_valid(n@, e@),
{
    DecodingKey::from_rsa_components(n, e)
}

/// What `jsonwebtoken::decode` makes of `token`, leaving the clock aside,
/// when it checks the token with the RSA key of components `n` and `e`, the
/// algorithms named `algorithm`, the issuers `issuer`, the audiences
/// `audience` and the required claims `required`: `None` when a check that
/// does not depend on the time fails (the header's algorithm, the signature,
/// a required claim that is missing or ill-typed, an `iss` or `aud` claim
/// that names neither), else `Some` of the payload's `sub` claim when that is
/// a string.
pub uninterp spec fn jwt_decoded_subject_spec(
    token: Seq<char>,
    n: Seq<char>,
    e: Seq<char>,
    algorithm: Seq<char>,
    issuer: Seq<char>,
    audience: Seq<char>,
    required: Seq<Seq<char>>,
) -> Option<Option<Seq<char>>>;

/// Builds the key with `DecodingKey::from_rsa_components`, a `Validation`
/// for the algorithm `algorithm` with `issuer` and `audience` as the only
/// accepted issuer and audience and `required` as the required claims, and
/// calls `jsonwebtoken::decode` with them, the claims read as JSON; the
/// result is the claims' `sub` member when it is a string.
///
/// Claimed: success needs a valid key and passing every check that does not
/// depend on the time, and then gives the subject named
/// `jwt_decoded_subject_spec`. Whether the expiry check passes depends on
/// the clock and is not claimed.
#[verifier::external_body]
pub(crate) fn jwt_decode_subject(
    token: &str,
    n: &str,
    e: &str,
    algorithm: &str,
    issuer: &str,
    audience: &str,
    required: &[&str],
) -> (r: Result<Option<String>, jsonwebtoken::errors::Error>)
    ensures
        r is Ok ==> rsa_components_valid(n@, e@),
        r matches Ok(s) ==> jwt_decoded_subject_spec(token@, n@, e@, algorithm@, issuer@, audience@, required.deep_view())
            == Some(optional_text_view(s)),
{
    let key = DecodingKey::from_rsa_components(n, e)?;
    let mut validation = Validation::new(algorithm.parse::<Algorithm>()?);
    validation.set_issuer(&[issuer]);
    validation.set_audience(&[audience]);
    validation.set_required_spec_claims(required);
    decode::<serde_json::Value>(token, &key, &validation).map(|d| d.claims["sub"].as_str().map(String::from))
}

/// The view of an optional text.
pub open spec fn optional_text_view(s: Option<String>) -> Option<Seq<char>> {
    match s {
        Some(t) => Some(t@),
        None => None,
    }
}

/// Calls `Display::fmt` of the token library's error. Nothing is claimed of
/// the text.
#[verifier::external_body]
pub(crate) fn jwt_error_text(e: &jsonwebtoken::errors::Error) -> (r: String) {
    e.to_string()
}

/// Whether key `k` has the id `kid`.
pub open spec fn key_has_kid(k: Jwk, kid: Seq<char>) -> bool {
    k.kid matches Some(x) && x@ == kid
}

/// Position `i` holds the first key of `keys` whose `kid` is `kid`.
pub open spec fn is_first_with_kid(keys: Seq<Jwk>, kid: Seq<char>, i: int) -> bool {
    &&& 0 <= i < keys.len()
    &&& key_has_kid(keys[i], kid)
    &&& forall|j: int| 0 <= j < i ==> !key_has_kid(#[trigger] keys[j], kid)
}

/// The position of the first key of `keys` whose `kid` is `kid`, if any.
pub open spec fn first_key_with_kid(keys: Seq<Jwk>, kid: Seq<char>) -> Option<int> {
    if exists|i: int| is_first_with_kid(keys, kid, i) {
        Some(choose|i: int| is_first_with_kid(keys, kid, i))
    } else {
        None
    }
}

/// The key of `keys` chosen for `kid` and its components: the first key with
/// that `kid`; `NoMatchingKey` when none has it; `MissingN` or `MissingE`
/// when the chosen key lacks a component.
pub open spec fn spec_select(keys: Option<Vec<Jwk>>, kid: Seq<char>) -> Result<(Seq<char>, Seq<char>), JwtError> {
    match keys {
        None => Err(JwtError::InvalidJwks),
        Some(v) => match first_key_with_kid(v@, kid) {
            None => Err(JwtError::NoMatchingKey),
            Some(i) => match v@[i].n {
                None => Err(JwtError::MissingN),
                Some(n) => match v@[i].e {
                    None => Err(JwtError::MissingE),
                    Some(e) => Ok((n@, e@)),
                },
            },
        },
    }
}

/// The view of a selection result.
pub open spec fn selection_view(r: Result<(String, String), JwtError>) -> Result<(Seq<char>, Seq<char>), JwtError> {
    match r {
        Ok((n, e)) => Ok((n@, e@)),
        Err(err) => Err(err),
    }
}

/// Picks the RSA components `n` and `e` of the key with id `kid`.
pub fn select_rsa_components(kid: &str, jwks: &Jwks) -> (r: Result<(String, String), JwtError>)
    ensures
        selection_view(r) == spec_select(jwks.keys, kid@),
{
    let keys = match jwks.keys.as_ref() {
        Some(k) => k,
        None => return Err(JwtError::InvalidJwks),
    };
    assert(jwks.keys == Some(*keys));
    let n = keys.len();
    let mut i: usize = 0;
    while i < n
        invariant
            n == keys@.len(),
            i <= n,
            jwks.keys == Some(*keys),
            forall|j: int| 0 <= j < i ==> !key_has_kid(#[trigger] keys@[j], kid@),
        decreases n - i,
    {
        let found = match &keys[i].kid {
            Some(k) => str_eq(k.as_str(), kid),
            None => false,
        };
        if found {
            proof {
                let w = i as int;
                assert(is_first_with_kid(keys@, kid@, w));
                let c = choose|c: int| is_first_with_kid(keys@, kid@, c);
                if c < w {
                    assert(!key_has_kid(keys@[c], kid@));
                } else if c > w {
                    assert(!key_has_kid(keys@[w], kid@));
                }
                assert(first_key_with_kid(keys@, kid@) == Some(w));
            }
            let key = &keys[i];
            assert(*key == keys@[i as int]);
            let modulus = match &key.n {
                Some(m) => m.clone(),
                None => {
                    assert(key.n is None);
                    return Err(JwtError::MissingN);
                },
            };
            let exponent = match &key.e {
                Some(x) => x.clone(),
                None => {
                    assert(key.e is None);
                    return Err(JwtError::MissingE);
                },
            };
            return Ok((modulus, exponent));
        }
        i = i + 1;
    }
    Err(JwtError::NoMatchingKey)
}

/// The error text that the token library's error gives, as a refusal.
fn rejected(e: &jsonwebtoken::errors::Error) -> (r: JwtError)
    ensures
        r is Rejected,
{
    JwtError::Rejected(jwt_error_text(e))
}

/// What choosing a key for `token` from `jwks` gives, up to the token
/// library's own verdicts: `None` when the header cannot be read or the
/// components do not make a key; otherwise the outcome of the selection.
pub open spec fn spec_key_choice(token: Seq<char>, jwks: Jwks) -> Option<Result<(Seq<char>, Seq<char>), JwtError>> {
    match header_kid_spec(token) {
        None => None,
        Some(None) => Some(Err(JwtError::MissingKid)),
        Some(Some(kid)) => Some(spec_select(jwks.keys, kid)),
    }
}

/// The RSA components of the key that `token` names: the token header's
/// `kid` selects the key as `select_rsa_components` does.
fn key_components(token: &str, jwks: &Jwks) -> (r: Result<(String, String), JwtError>)
    ensures
        match spec_key_choice(token@, *jwks) {
            None => r matches Err(JwtError::Rejected(_)),
            Some(c) => selection_view(r) == c,
        },
{
    match jwt_header_kid(token) {
        Ok(Some(kid)) => select_rsa_components(kid.as_str(), jwks),
        Ok(None) => Err(JwtError::MissingKid),
        Err(e) => Err(rejected(&e)),
    }
}

/// Finds the key that checks `token`'s signature: the RSA key of the key
/// set whose `kid` is the token header's.
pub fn get_rsa_key(token: &str, jwks: &Jwks) -> (r: Result<DecodingKey, JwtError>)
    ensures
        match spec_key_choice(token@, *jwks) {
            None => r matches Err(JwtError::Rejected(_)),
            Some(Err(e)) => r == Err::<DecodingKey, JwtError>(e),
            Some(Ok((n, e))) => (r is Ok <==> rsa_components_valid(n, e))
                && (r is Err ==> r matches Err(JwtError::Rejected(_))),
        },
{
    let (n, e) = key_components(token, jwks)?;
    match rsa_decoding_key(n.as_str(), e.as_str()) {
        Ok(key) => Ok(key),
        Err(err) => Err(rejected(&err)),
    }
}

/// The signature algorithm that tokens must use.
pub const ALGORITHM: &'static str = "RS256";

/// The claims a token must carry, each with its expected type: `exp` a
/// number, `iss` and `aud` text or lists of text, `sub` text.
pub open spec fn required_claims() -> Seq<Seq<char>> {
    seq!["exp"@, "iss"@, "aud"@, "sub"@]
}

/// What the token library makes of `token` under this program's checks
/// with the key components `n` and `e`, leaving the clock aside.
pub open spec fn token_subject(token: Seq<char>, n: Seq<char>, e: Seq<char>) -> Option<Option<Seq<char>>> {
    jwt_decoded_subject_spec(token, n, e, ALGORITHM@, ISSUER@, AUDIENCE@, required_claims())
}

/// Checks an access token against the key set and returns its subject, the
/// user's identity. The key is chosen as `get_rsa_key` does; the token must
/// then carry an RS256 signature by that key, the claims `exp`, `iss`, `aud`
/// and `sub`, the issuer `ISSUER`, the audience `AUDIENCE`, and an `exp`
/// that has not passed.
///
/// Every refusal that does not depend on the clock is stated; a success
/// always means that every check but the expiry passed, and gives the
/// token's subject.
pub fn verify_jwt(token: &str, jwks: &Jwks) -> (r: Result<String, JwtError>)
    ensures
        match spec_key_choice(token@, *jwks) {
            None => r matches Err(JwtError::Rejected(_)),
            Some(Err(e)) => r == Err::<String, JwtError>(e),
            Some(Ok((n, e))) => {
                &&& (!rsa_components_valid(n, e) ==> r matches Err(JwtError::Rejected(_)))
                &&& (token_subject(token@, n, e) is None ==> r matches Err(JwtError::Rejected(_)))
                &&& (r matches Ok(sub) ==> token_subject(token@, n, e) == Some(Some(sub@)))
                &&& (r matches Err(JwtError::MissingSubject) ==> token_subject(token@, n, e) == Some(None::<Seq<char>>))
                &&& (r matches Err(err) ==> (err is Rejected || err is MissingSubject))
            },
        },
{
    let (n, e) = key_components(token, jwks)?;
    let required = vec!["exp", "iss", "aud", "sub"];
    let claims = required.as_slice();
    proof {
        assert(claims.deep_view() =~= required_claims());
    }
    let decoded = jwt_decode_subject(token, n.as_str(), e.as_str(), ALGORITHM, ISSUER, AUDIENCE, claims);
    subject_from_decoded(decoded)
}

/// What `verify_jwt` answers once the token library has decoded the token:
/// the subject; `MissingSubject` when the claims carry none as text; the
/// library's refusal otherwise.
pub fn subject_from_decoded(decoded: Result<Option<String>, jsonwebtoken::errors::Error>) -> (r: Result<String, JwtError>)
    ensures
        match decoded {
            Ok(Some(subject)) => r matches Ok(s) && s@ == subject@,
            Ok(None) => r == Err::<String, JwtError>(JwtError::MissingSubject),
            Err(_) => r matches Err(JwtError::Rejected(_)),
        },
{
    match decoded {
        Ok(Some(subject)) => Ok(subject),
        Ok(None) => Err(JwtError::MissingSubject),
        Err(err) => Err(rejected(&err)),
    }
}

} // verus!
