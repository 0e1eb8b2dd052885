use vstd::prelude::*;

verus! {

/// Why a bearer token was refused.
#[derive(Clone, Copy, Debug, PartialEq, Eq, Structural)]
pub enum AuthError {
    /// The identity provider could not be reached, answered with an error,
    /// or sent a body without a key.
    IdentityProviderUnavailable,
    /// The key the identity provider sent is not an RSA public key.
    MalformedSigningKey,
    /// The token's signature, or one of its checked claims, is not valid.
    InvalidToken,
}

impl AuthError {
    /// Every refusal is reported as unauthorised.
    pub fn status_code(&self) -> (r: u16)
        ensures
            r == 401,
    {
        401
    }
}

/// How bearer tokens are checked.
#[derive(Clone, Copy, Debug)]
pub struct TokenPolicy {
    /// Whether a token past its `exp` claim is refused.
    pub validate_expiry: bool,
}

impl Default for TokenPolicy {
    /// Expiry is checked unless configured otherwise.
    fn default() -> (r: Self)
        ensures
            r.validate_expiry,
    {
        TokenPolicy { validate_expiry: true }
    }
}

/// The header under which the tracing correlation id travels when none is
/// configured.
pub open spec fn default_trace_header() -> Seq<char> {
    "Uber-Trace-Id"@
}

/// The name of the tracing header to forward: the configured one, or the
/// default.
pub fn trace_header_key(configured: Option<String>) -> (r: String)
    ensures
        match configured {
            Some(k) => r@ == k@,
            None => r@ == default_trace_header(),
        },
{
    match configured {
        Some(k) => k,
        None => "Uber-Trace-Id".to_owned(),
    }
}

/// A character with the Unicode `White_Space` property, the whitespace of
/// `char::is_whitespace`.
pub open spec fn white_space(c: char) -> bool {
    let n = c as u32;
    (9 <= n <= 13) || n == 32 || n == 0x85 || n == 0xa0 || n == 0x1680 || (0x2000 <= n <= 0x200a) || n == 0x2028
        || n == 0x2029 || n == 0x202f || n == 0x205f || n == 0x3000
}

/// The string without its leading whitespace.
pub open spec fn trimmed_start(s: Seq<char>) -> Seq<char>
    decreases s.len(),
{
    if s.len() > 0 && white_space(s[0]) {
        trimmed_start(s.drop_first())
    } else {
        s
    }
}

/// The string without its trailing whitespace.
pub open spec fn trimmed_end(s: Seq<char>) -> Seq<char>
    decreases s.len(),
{
    if s.len() > 0 && white_space(s.last()) {
        trimmed_end(s.drop_last())
    } else {
        s
    }
}

/// The string without its leading and trailing whitespace.
pub open spec fn trimmed(s: Seq<char>) -> Seq<char> {
    trimmed_end(trimmed_start(s))
}

/// Relies on `str::trim`: the string without its leading and trailing
/// whitespace, whitespace being the Unicode `White_Space` property.
#[verifier::external_body]
fn trim_key(s: &str) -> (r: &str)
    ensures
        r@ == trimmed(s@),
{
    s.trim()
}

/// The PEM envelope of a public key given as base64 text.
pub open spec fn pem_of(key: Seq<char>) -> Seq<char> {
    "-----BEGIN PUBLIC KEY-----\n"@ + key + "\n-----END PUBLIC KEY-----"@
}

/// Wraps base64 key material in the public-key PEM envelope.
pub fn wrap_public_key(key: &str) -> (r: String)
    ensures
        r@ == pem_of(key@),
{
    let mut pem = "-----BEGIN PUBLIC KEY-----\n".to_owned();
    pem.append(key);
    pem.append("\n-----END PUBLIC KEY-----");
    pem
}

/// The PEM text of the key the identity provider sent, whitespace around
/// it removed.
pub fn pem_envelope(raw_key: &str) -> (r: String)
    ensures
        r@ == pem_of(trimmed(raw_key@)),
{
    wrap_public_key(trim_key(raw_key))
}

/// Whether `jsonwebtoken::DecodingKey::from_rsa_pem` reads an RSA public key
/// out of the PEM text.
pub uninterp spec fn rsa_pem_accepted(pem: Seq<char>) -> bool;

/// Relies on `jsonwebtoken::DecodingKey::from_rsa_pem`, which decodes PEM
/// text into an RSA verification key or fails; the outcome depends on the
/// text alone.
#[verifier::external_body]
fn decode_rsa_pem(pem: &str) -> (r: bool)
    ensures
        r == rsa_pem_accepted(pem@),
{
    jsonwebtoken::DecodingKey::from_rsa_pem(pem.as_bytes()).is_ok()
}

/// Whether `jsonwebtoken::decode`, with `Validation::new(Algorithm::RS256)`
/// and expiry left unchecked, accepts the token under the key read from the
/// PEM text.
pub uninterp spec fn rs256_accepts(token: Seq<char>, pem: Seq<char>) -> bool;

/// Relies on `jsonwebtoken::decode` with `Validation::new(Algorithm::RS256)`,
/// under the key that `DecodingKey::from_rsa_pem` reads from `pem`: true iff
/// the token is an RS256 JWT whose signature that key verifies and whose
/// claims hold an `exp`. With `validate_expiry` set, `exp` must also lie in
/// the future as the system clock tells it: one more way to fail, and the
/// only one that depends on anything but the token and the key.
#[verifier::external_body]
fn verify_rs256(token: &str, pem: &str, validate_expiry: bool) -> (r: bool)
    ensures
        r ==> rs256_accepts(token@, pem@),
        !validate_expiry ==> r == rs256_accepts(token@, pem@),
{
    let mut validation = jsonwebtoken::Validation::new(jsonwebtoken::Algorithm::RS256);
    validation.validate_exp = validate_expiry;
    match jsonwebtoken::DecodingKey::from_rsa_pem(pem.as_bytes()) {
        Ok(key) => jsonwebtoken::decode::<serde_json::Value>(token, &key, &validation).is_ok(),
        Err(_) => false,
    }
}

/// The gateway's verdict from what each stage produced: a key from the
/// identity provider, a decoded signing key, a verified token.
pub open spec fn auth_verdict(key_fetched: bool, key_decoded: bool, token_verified: bool) -> Result<(), AuthError> {
    if !key_fetched {
        Err(AuthError::IdentityProviderUnavailable)
    } else if !key_decoded {
        Err(AuthError::MalformedSigningKey)
    } else if !token_verified {
        Err(AuthError::InvalidToken)
    } else {
        Ok(())
    }
}

/// Decides a protected request from what each stage produced.
pub fn auth_outcome(key_fetched: bool, key_decoded: bool, token_verified: bool) -> (r: Result<(), AuthError>)
    ensures
        r == auth_verdict(key_fetched, key_decoded, token_verified),
{
    if !key_fetched {
        Err(AuthError::IdentityProviderUnavailable)
    } else if !key_decoded {
        Err(AuthError::MalformedSigningKey)
    } else if !token_verified {
        Err(AuthError::InvalidToken)
    } else {
        Ok(())
    }
}

/// Checks a bearer token against the public key the identity provider sent
/// for this request (`None` when the key could not be fetched). The key is
/// not kept for later requests.
pub fn validator(public_key: Option<String>, token: &str, policy: &TokenPolicy) -> (r: Result<(), AuthError>)
    ensures
        match public_key {
            None => r == Err::<(), AuthError>(AuthError::IdentityProviderUnavailable),
            Some(k) => if !rsa_pem_accepted(pem_of(trimmed(k@))) {
                r == Err::<(), AuthError>(AuthError::MalformedSigningKey)
            } else if !policy.validate_expiry {
                r == auth_verdict(true, true, rs256_accepts(token@, pem_of(trimmed(k@))))
            } else {
                &&& r == Ok::<(), AuthError>(()) || r == Err::<(), AuthError>(AuthError::InvalidToken)
                &&& r is Ok ==> rs256_accepts(token@, pem_of(trimmed(k@)))
            },
        },
{
    match public_key {
        None => auth_outcome(false, false, false),
        Some(k) => {
            let pem = pem_envelope(k.as_str());
            if !decode_rsa_pem(pem.as_str()) {
                return auth_outcome(true, false, false);
            }
            let verified = verify_rs256(token, pem.as_str(), policy.validate_expiry);
            auth_outcome(true, true, verified)
        },
    }
}

} // verus!
