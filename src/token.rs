use vstd::prelude::*;
use vstd::string::StringExecFns;

use base64::Engine;

use crate::claims::{claims_json, ClaimsView, EdrClaims};
use crate::config::KeyFormat;
use crate::text::text_eq;

verus! {

#[verifier::external_type_specification]
#[verifier::external_body]
pub struct ExJwtError(jsonwebtoken::errors::Error);

#[verifier::external_type_specification]
#[verifier::external_body]
pub struct ExEd25519Error(ed25519_compact::Error);

/// Signature algorithms of JSON Web Tokens, by their JWA names.
#[derive(Clone, Copy, Debug, PartialEq, Eq, Structural)]
pub enum Algorithm {
    HS256,
    HS384,
    HS512,
    ES256,
    ES384,
    RS256,
    RS384,
    RS512,
    PS256,
    PS384,
    PS512,
    EdDSA,
}

/// The algorithm that a JWA name stands for.
pub open spec fn algorithm_named(s: Seq<char>) -> Option<Algorithm> {
    if s == "HS256"@ {
        Some(Algorithm::HS256)
    } else if s == "HS384"@ {
        Some(Algorithm::HS384)
    } else if s == "HS512"@ {
        Some(Algorithm::HS512)
    } else if s == "ES256"@ {
        Some(Algorithm::ES256)
    } else if s == "ES384"@ {
        Some(Algorithm::ES384)
    } else if s == "RS256"@ {
        Some(Algorithm::RS256)
    } else if s == "RS384"@ {
        Some(Algorithm::RS384)
    } else if s == "RS512"@ {
        Some(Algorithm::RS512)
    } else if s == "PS256"@ {
        Some(Algorithm::PS256)
    } else if s == "PS384"@ {
        Some(Algorithm::PS384)
    } else if s == "PS512"@ {
        Some(Algorithm::PS512)
    } else if s == "EdDSA"@ {
        Some(Algorithm::EdDSA)
    } else {
        None
    }
}

impl Algorithm {
    /// The algorithm of a JWA name.
    pub fn from_name(s: &str) -> (r: Option<Algorithm>)
        ensures
            r == algorithm_named(s@),
    {
        if text_eq(s, "HS256") {
            Some(Algorithm::HS256)
        } else if text_eq(s, "HS384") {
            Some(Algorithm::HS384)
        } else if text_eq(s, "HS512") {
            Some(Algorithm::HS512)
        } else if text_eq(s, "ES256") {
            Some(Algorithm::ES256)
        } else if text_eq(s, "ES384") {
            Some(Algorithm::ES384)
        } else if text_eq(s, "RS256") {
            Some(Algorithm::RS256)
        } else if text_eq(s, "RS384") {
            Some(Algorithm::RS384)
        } else if text_eq(s, "RS512") {
            Some(Algorithm::RS512)
        } else if text_eq(s, "PS256") {
            Some(Algorithm::PS256)
        } else if text_eq(s, "PS384") {
            Some(Algorithm::PS384)
        } else if text_eq(s, "PS512") {
            Some(Algorithm::PS512)
        } else if text_eq(s, "EdDSA") {
            Some(Algorithm::EdDSA)
        } else {
            None
        }
    }
}

/// Why a token could not be made, read or published.
#[derive(Debug)]
pub enum TokenError {
    /// The token could not be made.
    Encode(jsonwebtoken::errors::Error),
    /// The token was refused: its form, signature or audience.
    Decode(jsonwebtoken::errors::Error),
    /// The token has expired.
    Expired(jsonwebtoken::errors::Error),
    /// The key material could not be read.
    Format(jsonwebtoken::errors::Error),
    /// The algorithm and key format go together nowhere here.
    UnsupportedFormat(Algorithm, KeyFormat),
    /// The public key could not be read.
    Ed25519(ed25519_compact::Error),
    /// The token carries claims of another shape.
    Claims,
}

/// The token that `jsonwebtoken::encode` makes of the claims text `claims`,
/// with the EdDSA algorithm and key id `kid` in its header, signed with the
/// Ed25519 key written in PEM as `key`; none where the key or the claims are
/// refused.
pub uninterp spec fn ed_signed_token(kid: Seq<char>, key: Seq<char>, claims: Seq<char>) -> Option<
    Seq<char>,
>;

/// The claims text that a token carries: its middle part, base64url-decoded
/// and read by `serde_json` as one raw JSON value, without the white space
/// around it; none where it holds no such value.
pub uninterp spec fn token_claims(token: Seq<char>) -> Option<Seq<char>>;

/// White space between JSON tokens.
pub open spec fn json_space(c: char) -> bool {
    c == ' ' || c == '\t' || c == '\n' || c == '\r'
}

/// A text that neither starts nor ends with white space.
pub open spec fn json_trimmed(s: Seq<char>) -> bool {
    s.len() > 0 && !json_space(s[0]) && !json_space(s.last())
}

/// Relies on `jsonwebtoken::EncodingKey::from_ed_pem` and `jsonwebtoken::encode`,
/// which sign with Ed25519, so that the token depends on the arguments alone;
/// `serde_json`'s `RawValue` hands the claims text over as it is.
#[verifier::external_body]
fn sign_ed(kid: &str, key_pem: &str, claims: &str) -> (r: Result<String, TokenError>)
    ensures
        match r {
            Ok(t) => ed_signed_token(kid@, key_pem@, claims@) == Some(t@),
            Err(e) => ed_signed_token(kid@, key_pem@, claims@) is None && (e is Encode
                || e is Format),
        },
        r matches Ok(t) ==> (json_trimmed(claims@) ==> token_claims(t@) == Some(claims@)),
{
    let key = jsonwebtoken::EncodingKey::from_ed_pem(key_pem.as_bytes()).map_err(TokenError::Format)?;
    let mut header = jsonwebtoken::Header::new(jsonwebtoken::Algorithm::EdDSA);
    header.kid = Some(kid.to_string());
    let raw = serde_json::value::RawValue::from_string(claims.to_string())
        .map_err(|e| TokenError::Encode(e.into()))?;
    jsonwebtoken::encode(&header, &raw, &key).map_err(TokenError::Encode)
}

/// Relies on `jsonwebtoken::DecodingKey::from_ed_pem` and `jsonwebtoken::decode`:
/// the Ed25519 signature is checked with the public key written in PEM as
/// `key_pem`, `aud` against `audience`, and `exp` against the clock with
/// `leeway` seconds of tolerance; the claims text comes back as the token
/// carries it. A claims object laid out as `claims_json` lays it out holds its
/// audience as one string, which is accepted only where it is `audience`.
/// The leeway must stay below the current time in seconds, which
/// `jsonwebtoken` takes it from.
#[verifier::external_body]
fn verify_ed(token: &str, key_pem: &str, audience: &str, leeway: u64) -> (r: Result<String, TokenError>)
    requires
        leeway <= MAX_LEEWAY,
    ensures
        r matches Err(e) ==> (e is Decode || e is Expired || e is Format),
        r matches Ok(t) ==> token_claims(token@) == Some(t@),
        r matches Ok(t) ==> forall|c: ClaimsView| #[trigger] claims_json(c) == t@ ==> c.aud == audience@,
{
    let key = jsonwebtoken::DecodingKey::from_ed_pem(key_pem.as_bytes()).map_err(TokenError::Format)?;
    let mut validation = jsonwebtoken::Validation::new(jsonwebtoken::Algorithm::EdDSA);
    validation.leeway = leeway;
    validation.set_audience(&[audience]);
    let data = jsonwebtoken::decode::<Box<serde_json::value::RawValue>>(token, &key, &validation)
        .map_err(|e| match e.kind() {
            jsonwebtoken::errors::ErrorKind::ExpiredSignature => TokenError::Expired(e),
            _ => TokenError::Decode(e),
        })?;
    Ok(data.claims.get().to_string())
}

/// The bytes of the Ed25519 public key written in PEM as `pem`; none where
/// the text holds no such key.
pub uninterp spec fn ed_public_key(pem: Seq<char>) -> Option<Seq<u8>>;

/// Relies on `ed25519_compact::PublicKey::from_pem`: the key's bytes.
#[verifier::external_body]
fn ed_public_key_bytes(pem: &str) -> (r: Result<Vec<u8>, ed25519_compact::Error>)
    ensures
        match r {
            Ok(b) => ed_public_key(pem@) == Some(b@),
            Err(_) => ed_public_key(pem@) is None,
        },
{
    match ed25519_compact::PublicKey::from_pem(pem) {
        Ok(k) => Ok(k.to_vec()),
        Err(e) => Err(e),
    }
}

/// The URL-safe base64 digit of `n` (below 64).
pub open spec fn base64url_digit(n: int) -> char {
    if n < 26 {
        ((n + 65) as u8) as char
    } else if n < 52 {
        ((n + 71) as u8) as char
    } else if n < 62 {
        ((n - 4) as u8) as char
    } else if n == 62 {
        '-'
    } else {
        '_'
    }
}

/// The URL-safe base64 text of `b`, without padding: four digits for each
/// three bytes, and two or three digits for the one or two bytes left.
pub open spec fn base64url(b: Seq<u8>) -> Seq<char>
    decreases b.len(),
{
    if b.len() == 0 {
        Seq::empty()
    } else if b.len() == 1 {
        seq![base64url_digit((b[0] as int) / 4), base64url_digit(((b[0] as int) % 4) * 16)]
    } else if b.len() == 2 {
        seq![
            base64url_digit((b[0] as int) / 4),
            base64url_digit(((b[0] as int) % 4) * 16 + (b[1] as int) / 16),
            base64url_digit(((b[1] as int) % 16) * 4),
        ]
    } else {
        seq![
            base64url_digit((b[0] as int) / 4),
            base64url_digit(((b[0] as int) % 4) * 16 + (b[1] as int) / 16),
            base64url_digit(((b[1] as int) % 16) * 4 + (b[2] as int) / 64),
            base64url_digit((b[2] as int) % 64),
        ] + base64url(b.skip(3))
    }
}

/// Relies on `base64`'s `URL_SAFE_NO_PAD` engine.
#[verifier::external_body]
fn base64url_encode(b: &Vec<u8>) -> (r: String)
    ensures
        r@ == base64url(b@),
{
    base64::engine::general_purpose::URL_SAFE_NO_PAD.encode(b)
}

/// A published verification key.
#[derive(Debug)]
pub struct Jwk {
    pub kty: String,
    pub crv: String,
    pub x: String,
    pub key_use: String,
    pub alg: String,
    pub kid: String,
}

/// The published verification keys.
#[derive(Debug)]
pub struct JwkSet {
    pub keys: Vec<Jwk>,
}

/// The largest tolerated clock skew, in seconds.
pub const MAX_LEEWAY: u64 = 1_000_000_000;

/// Signs and checks the tokens of this data plane, and publishes the key that
/// checks them.
pub struct TokenManagerImpl {
    encoding_key: String,
    decoding_key: String,
    audience: String,
    algorithm: Algorithm,
    kid: String,
    format: KeyFormat,
    leeway: u64,
}

/// What a token manager is configured with.
pub struct TokenSettings {
    pub signing_key: Seq<char>,
    pub decoding_key: Seq<char>,
    pub audience: Seq<char>,
    pub algorithm: Algorithm,
    pub kid: Seq<char>,
    pub format: KeyFormat,
    pub leeway: u64,
}

impl View for TokenManagerImpl {
    type V = TokenSettings;

    closed spec fn view(&self) -> TokenSettings {
        TokenSettings {
            signing_key: self.encoding_key@,
            decoding_key: self.decoding_key@,
            audience: self.audience@,
            algorithm: self.algorithm,
            kid: self.kid@,
            format: self.format,
            leeway: self.leeway,
        }
    }
}

impl TokenManagerImpl {
    /// The tolerated clock skew stays within bounds.
    #[verifier::type_invariant]
    spec fn leeway_bounded(self) -> bool {
        self.leeway <= MAX_LEEWAY
    }

    pub fn new(
        encoding_key: String,
        decoding_key: String,
        audience: String,
        algorithm: Algorithm,
        kid: String,
        format: KeyFormat,
        leeway: u64,
    ) -> (r: TokenManagerImpl)
        requires
            leeway <= MAX_LEEWAY,
        ensures
            r@ == (TokenSettings {
                signing_key: encoding_key@,
                decoding_key: decoding_key@,
                audience: audience@,
                algorithm,
                kid: kid@,
                format,
                leeway,
            }),
    {
        TokenManagerImpl { encoding_key, decoding_key, audience, algorithm, kid, format, leeway }
    }

    /// Whether keys of this algorithm and format can be used.
    pub open spec fn supported(&self) -> bool {
        self@.algorithm == Algorithm::EdDSA && self@.format == KeyFormat::Pem
    }

    /// The token made of a claims text; none where it cannot be made.
    pub open spec fn issued(&self, claims: Seq<char>) -> Option<Seq<char>> {
        if self.supported() {
            ed_signed_token(self@.kid, self@.signing_key, claims)
        } else {
            None
        }
    }

    /// The audience the tokens are made for.
    pub fn audience(&self) -> (r: &str)
        ensures
            r@ == self@.audience,
    {
        self.audience.as_str()
    }

    /// Makes a signed token of a claims text, with this manager's key id in its
    /// header.
    pub fn issue(&self, claims: &str) -> (r: Result<String, TokenError>)
        ensures
            match r {
                Ok(t) => self.issued(claims@) == Some(t@) && (json_trimmed(claims@) ==> token_claims(
                    t@,
                ) == Some(claims@)),
                Err(e) => self.issued(claims@) is None && (e is Encode || e is Format
                    || e is UnsupportedFormat) && (e is UnsupportedFormat <==> !self.supported())
                    && (e matches TokenError::UnsupportedFormat(a, f) ==> a == self@.algorithm && f
                    == self@.format),
            },
    {
        if self.algorithm == Algorithm::EdDSA && self.format == KeyFormat::Pem {
            sign_ed(self.kid.as_str(), self.encoding_key.as_str(), claims)
        } else {
            Err(TokenError::UnsupportedFormat(self.algorithm, self.format))
        }
    }

    /// Checks a token's signature, audience and expiry, and gives back the
    /// claims text it carries.
    pub fn validate(&self, token: &str) -> (r: Result<String, TokenError>)
        ensures
            r matches Err(e) ==> (e is Decode || e is Expired || e is Format || e is UnsupportedFormat),
            r matches Err(e) ==> (e is UnsupportedFormat <==> !self.supported()),
            r is Ok ==> self.supported(),
            r matches Ok(t) ==> token_claims(token@) == Some(t@),
            r matches Ok(t) ==> forall|c: ClaimsView| #[trigger] claims_json(c) == t@ ==> c.aud
                == self@.audience,
    {
        if self.algorithm == Algorithm::EdDSA && self.format == KeyFormat::Pem {
            proof {
                use_type_invariant(self);
            }
            verify_ed(token, self.decoding_key.as_str(), self.audience.as_str(), self.leeway)
        } else {
            Err(TokenError::UnsupportedFormat(self.algorithm, self.format))
        }
    }

    /// Checks a token and reads the claims of an access or refresh token from it.
    pub fn validate_claims(&self, token: &str) -> (r: Result<EdrClaims, TokenError>)
        ensures
            r matches Err(e) ==> (e is Decode || e is Expired || e is Format || e is UnsupportedFormat
                || e is Claims),
            r matches Err(e) ==> (e is UnsupportedFormat <==> !self.supported()),
            r matches Ok(c) ==> self.supported() && token_claims(token@) == Some(claims_json(c@))
                && c.aud@ == self@.audience,
            r matches Err(TokenError::Claims) ==> (token_claims(token@) matches Some(t) && forall|
                m: ClaimsView,
            | #[trigger] claims_json(m) != t),
    {
        let text = match self.validate(token) {
            Ok(t) => t,
            Err(e) => return Err(e),
        };
        match EdrClaims::from_json(text.as_str()) {
            Some(c) => Ok(c),
            None => Err(TokenError::Claims),
        }
    }

    /// The key that checks this manager's tokens, as published.
    pub open spec fn published_key(&self) -> Option<(Seq<char>, Seq<char>, Seq<char>, Seq<char>, Seq<char>, Seq<char>)> {
        if self@.algorithm == Algorithm::EdDSA {
            match ed_public_key(self@.decoding_key) {
                Some(b) => Some(("OKP"@, "Ed25519"@, base64url(b), "sig"@, "EdDSA"@, self@.kid)),
                None => None,
            }
        } else {
            None
        }
    }

    /// The set of keys that check this manager's tokens: the one public key,
    /// under this manager's key id.
    pub fn keys(&self) -> (r: Result<JwkSet, TokenError>)
        ensures
            match r {
                Ok(set) => set.keys@.len() == 1 && self.published_key() == Some(
                    (
                        set.keys@[0].kty@,
                        set.keys@[0].crv@,
                        set.keys@[0].x@,
                        set.keys@[0].key_use@,
                        set.keys@[0].alg@,
                        set.keys@[0].kid@,
                    ),
                ),
                Err(e) => self.published_key() is None && (e is UnsupportedFormat <==> self@.algorithm
                    != Algorithm::EdDSA) && (e is Ed25519 <==> self@.algorithm == Algorithm::EdDSA),
            },
    {
        if self.algorithm != Algorithm::EdDSA {
            return Err(TokenError::UnsupportedFormat(self.algorithm, self.format));
        }
        let bytes = match ed_public_key_bytes(self.decoding_key.as_str()) {
            Ok(b) => b,
            Err(e) => return Err(TokenError::Ed25519(e)),
        };
        let jwk = Jwk {
            kty: String::from_str("OKP"),
            crv: String::from_str("Ed25519"),
            x: base64url_encode(&bytes),
            key_use: String::from_str("sig"),
            alg: String::from_str("EdDSA"),
            kid: self.kid.clone(),
        };
        let mut keys: Vec<Jwk> = Vec::new();
        keys.push(jwk);
        Ok(JwkSet { keys })
    }
}

} // verus!
