use vstd::prelude::*;

use rand::Rng;

verus! {

/// The token jsonwebtoken's `encode` produces for the claims `device_serial`, `this_time` and
/// `exp` under the default header, signed with `key`.
pub uninterp spec fn jwt_token(serial: Seq<char>, nonce: Seq<char>, exp: u64, key: Seq<char>) -> Seq<char>;

/// The `this_time` claim carried in the payload of `token`.
pub uninterp spec fn jwt_nonce_claim(token: Seq<char>) -> Seq<char>;

/// An ASCII letter or digit.
pub open spec fn is_alphanumeric(c: char) -> bool {
    ('a' <= c && c <= 'z') || ('A' <= c && c <= 'Z') || ('0' <= c && c <= '9')
}

/// Relies on jsonwebtoken's `encode` with the default (HS256) header and an HMAC key: the key
/// family matches the algorithm and a map of JSON values serialises, so it signs the claims
/// and succeeds; the decoded payload gives the same `this_time` back.
#[verifier::external_body]
fn jwt_encode(serial: &str, nonce: &str, exp: u64, key: &str) -> (r: Option<String>)
    ensures
        r is Some,
        r matches Some(t) ==> t@ == jwt_token(serial@, nonce@, exp, key@) && jwt_nonce_claim(t@)
            == nonce@,
{
    let claims: std::collections::BTreeMap<&str, serde_json::Value> = [
        ("device_serial", serde_json::Value::from(serial)),
        ("this_time", serde_json::Value::from(nonce)),
        ("exp", serde_json::Value::from(exp)),
    ].into_iter().collect();
    let encoding_key = jsonwebtoken::EncodingKey::from_secret(key.as_bytes());
    jsonwebtoken::encode(&jsonwebtoken::Header::default(), &claims, &encoding_key).ok()
}

/// Relies on jsonwebtoken's `decode` with the default validation (HS256 signature under `key`,
/// `exp` not past): on success, the `this_time` claim of the token's payload.
#[verifier::external_body]
fn jwt_decode_nonce(token: &str, key: &str) -> (r: Option<String>)
    ensures
        r matches Some(n) ==> n@ == jwt_nonce_claim(token@),
{
    let decoding_key = jsonwebtoken::DecodingKey::from_secret(key.as_bytes());
    let validation = jsonwebtoken::Validation::default();
    let data = jsonwebtoken::decode::<std::collections::BTreeMap<String, serde_json::Value>>(
        token,
        &decoding_key,
        &validation,
    ).ok()?;
    data.claims.get("this_time").and_then(|v| v.as_str()).map(|s| s.to_string())
}

/// Relies on rand's thread generator sampling the `Alphanumeric` distribution `len` times:
/// `len` characters, each an ASCII letter or digit.
#[verifier::external_body]
fn random_alphanumeric(len: usize) -> (r: String)
    ensures
        r@.len() == len,
        forall|i: int| 0 <= i < len ==> is_alphanumeric(#[trigger] r@[i]),
{
    rand::rng().sample_iter(&rand::distr::Alphanumeric).take(len).map(char::from).collect()
}

/// Relies on chrono's `Utc::now().timestamp()`: the current Unix time in seconds.
#[verifier::external_body]
pub(crate) fn unix_time_secs() -> (r: i64) {
    chrono::Utc::now().timestamp()
}

/// Length of generated passwords, signing keys and boot nonces.
pub const SECRET_LEN: usize = 8;

/// Seconds a token stays valid.
pub const TOKEN_LIFETIME_SECS: u64 = 3600;

/// A fresh random string of eight letters and digits.
pub fn generate_secret() -> (r: String)
    ensures
        r@.len() == SECRET_LEN,
        forall|i: int| 0 <= i < SECRET_LEN ==> is_alphanumeric(#[trigger] r@[i]),
{
    random_alphanumeric(SECRET_LEN)
}

/// Expiry time of a token issued at Unix time `now`: an hour later (times before the epoch
/// count as the epoch).
pub open spec fn expiry(now: i64) -> u64 {
    if now < 0 {
        TOKEN_LIFETIME_SECS
    } else {
        (now + TOKEN_LIFETIME_SECS) as u64
    }
}

/// Expiry time of a token issued at Unix time `now`.
pub fn token_expiry(now: i64) -> (r: u64)
    ensures
        r == expiry(now),
{
    if now < 0 {
        TOKEN_LIFETIME_SECS
    } else {
        now as u64 + TOKEN_LIFETIME_SECS
    }
}

/// Claims carried by an issued token.
#[derive(Debug)]
pub struct Claims {
    pub device_serial: String,
    pub this_time: String,
    pub exp: u64,
}

/// The signing key and the boot nonce of one run of the agent.
#[derive(Debug)]
pub struct JwtKeys {
    pub key: String,
    pub nonce: String,
}

/// `token` was issued in the run whose keys are `keys` (with any serial and expiry).
pub open spec fn issued_in(token: Seq<char>, keys: JwtKeys) -> bool {
    jwt_nonce_claim(token) == keys.nonce@
}

impl JwtKeys {
    /// Keys of a run that follows this one: a fresh random key, and a fresh random nonce that
    /// differs from this run's, so that no token of this run validates in the next.
    pub fn next_run(&self) -> (r: Self)
        ensures
            r.nonce@ != self.nonce@,
            r.key@.len() == SECRET_LEN,
    {
        proof {
            reveal_strlit("0");
        }
        let nonce = generate_secret();
        let nonce = if crate::text::str_eq(nonce.as_str(), self.nonce.as_str()) {
            nonce.concat("0")
        } else {
            nonce
        };
        JwtKeys { key: generate_secret(), nonce }
    }

    /// Keys of a new run: a fresh random key and a fresh random nonce.
    pub fn generate() -> (r: Self)
        ensures
            r.key@.len() == SECRET_LEN,
            r.nonce@.len() == SECRET_LEN,
    {
        JwtKeys { key: generate_secret(), nonce: generate_secret() }
    }

    /// Issues a token for device `serial` at Unix time `now`, valid for an hour and bound to
    /// this run's nonce.
    pub fn generate_jwt_at(&self, serial: &str, now: i64) -> (r: String)
        ensures
            r@ == jwt_token(serial@, self.nonce@, expiry(now), self.key@),
            issued_in(r@, *self),
    {
        let exp = token_expiry(now);
        jwt_encode(serial, self.nonce.as_str(), exp, self.key.as_str()).unwrap()
    }

    /// Issues a token for device `serial` now.
    pub fn generate_jwt(&self, serial: &str) -> (r: String)
        ensures
            exists|exp: u64| r@ == #[trigger] jwt_token(serial@, self.nonce@, exp, self.key@),
            issued_in(r@, *self),
    {
        let now = unix_time_secs();
        self.generate_jwt_at(serial, now)
    }

    /// Whether a decoded `this_time` claim accepts a token in this run: it must be present and
    /// equal to the boot nonce.
    pub fn accepts_decoded(&self, decoded: &Option<String>) -> (r: bool)
        ensures
            r == (decoded matches Some(n) && n@ == self.nonce@),
    {
        match decoded {
            Some(n) => crate::text::str_eq(n.as_str(), self.nonce.as_str()),
            None => false,
        }
    }

    /// Whether `token` is valid in this run: its signature and expiry check out and it carries
    /// this run's nonce.
    pub fn validate_jwt(&self, token: &str) -> (r: bool)
        ensures
            r ==> issued_in(token@, *self),
    {
        let decoded = jwt_decode_nonce(token, self.key.as_str());
        self.accepts_decoded(&decoded)
    }
}

/// A token issued in one run never validates in a run with another boot nonce.
pub proof fn lemma_token_bound_to_run(token: Seq<char>, run_a: JwtKeys, run_b: JwtKeys)
    requires
        issued_in(token, run_a),
        run_a.nonce@ != run_b.nonce@,
    ensures
        !issued_in(token, run_b),
{
}

} // verus!
