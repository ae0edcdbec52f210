use base64::Engine;
use ed25519_compact::{KeyPair, Seed};
use edc_dataplane::claims::EdrClaims;
use edc_dataplane::config::KeyFormat;
use edc_dataplane::token::{Algorithm, TokenError, TokenManagerImpl};
use jsonwebtoken::errors::ErrorKind;

fn generate_key_pair() -> (String, String) {
    let key_pair = KeyPair::from_seed(Seed::default());
    (key_pair.sk.to_pem(), key_pair.pk.to_pem())
}

fn create_token_manager() -> TokenManagerImpl {
    let (private_key, public_key) = generate_key_pair();
    TokenManagerImpl::new(
        private_key,
        public_key,
        "audience".to_string(),
        Algorithm::EdDSA,
        "kid".to_string(),
        KeyFormat::Pem,
        0,
    )
}

fn now() -> i64 {
    chrono::Utc::now().timestamp()
}

#[test]
fn issue_and_validate() {
    let manager = create_token_manager();
    let exp = now();
    let claims = format!("{{\"iss\":\"test\",\"aud\":\"audience\",\"exp\":{}}}", exp);

    let token = manager.issue(&claims).unwrap();
    assert_ne!(token, claims);
    assert_eq!(token.split('.').count(), 3);
    let token_claims = manager.validate(&token).unwrap();

    assert_eq!(token_claims, claims);
}

#[test]
fn issue_and_validate_wrong_aud() {
    let manager = create_token_manager();
    let exp = now();
    let claims = format!("{{\"iss\":\"test\",\"aud\":\"wrong\",\"exp\":{}}}", exp);

    let token = manager.issue(&claims).unwrap();
    let result = manager.validate(&token).unwrap_err();

    if let TokenError::Decode(err) = result {
        assert_eq!(err.kind(), &ErrorKind::InvalidAudience);
    } else {
        panic!("Wrong type")
    }
}

#[test]
fn expired_token_is_refused() {
    let manager = create_token_manager();
    let claims = format!("{{\"aud\":\"audience\",\"exp\":{}}}", now() - 100);
    let token = manager.issue(&claims).unwrap();
    match manager.validate(&token) {
        Err(TokenError::Expired(err)) => assert_eq!(err.kind(), &ErrorKind::ExpiredSignature),
        _ => panic!("Wrong type"),
    }
}

#[test]
fn token_signed_with_other_key_is_refused() {
    let issuer = create_token_manager();
    let other = create_token_manager();
    let claims = format!("{{\"aud\":\"audience\",\"exp\":{}}}", now() + 100);
    let token = issuer.issue(&claims).unwrap();
    assert!(matches!(other.validate(&token), Err(TokenError::Decode(_))));
}

#[test]
fn unsupported_algorithm_is_refused() {
    let (private_key, public_key) = generate_key_pair();
    let manager = TokenManagerImpl::new(
        private_key,
        public_key,
        "audience".to_string(),
        Algorithm::RS256,
        "kid".to_string(),
        KeyFormat::Pem,
        0,
    );
    assert!(matches!(
        manager.issue("{}"),
        Err(TokenError::UnsupportedFormat(Algorithm::RS256, KeyFormat::Pem))
    ));
    assert!(matches!(manager.keys(), Err(TokenError::UnsupportedFormat(_, _))));
}

#[test]
fn broken_private_key_is_a_format_error() {
    let manager = TokenManagerImpl::new(
        "not a key".to_string(),
        "not a key".to_string(),
        "audience".to_string(),
        Algorithm::EdDSA,
        "kid".to_string(),
        KeyFormat::Pem,
        0,
    );
    match manager.issue("{}") {
        Err(TokenError::Format(err)) => assert_eq!(err.kind(), &ErrorKind::InvalidKeyFormat),
        _ => panic!("Wrong type"),
    }
    assert!(matches!(manager.keys(), Err(TokenError::Ed25519(_))));
}

#[test]
fn jwks_contains_the_signing_key() {
    let key_pair = KeyPair::from_seed(Seed::new([7u8; 32]));
    let manager = TokenManagerImpl::new(
        key_pair.sk.to_pem(),
        key_pair.pk.to_pem(),
        "audience".to_string(),
        Algorithm::EdDSA,
        "my-kid".to_string(),
        KeyFormat::Pem,
        0,
    );
    let set = manager.keys().unwrap();
    assert_eq!(set.keys.len(), 1);
    let key = &set.keys[0];
    assert_eq!(key.kty, "OKP");
    assert_eq!(key.crv, "Ed25519");
    assert_eq!(key.key_use, "sig");
    assert_eq!(key.alg, "EdDSA");
    assert_eq!(key.kid, "my-kid");
    let x = base64::engine::general_purpose::URL_SAFE_NO_PAD.encode(key_pair.pk.as_ref());
    assert_eq!(key.x, x);
    assert_eq!(key.x.len(), 43);

    let claims = format!("{{\"aud\":\"audience\",\"exp\":{}}}", now() + 100);
    let token = manager.issue(&claims).unwrap();
    let header = jsonwebtoken::decode_header(&token).unwrap();
    assert_eq!(header.kid.as_deref(), Some("my-kid"));
    assert_eq!(header.alg, jsonwebtoken::Algorithm::EdDSA);
}

#[test]
fn edr_claims_survive_a_token() {
    let manager = create_token_manager();
    let claims = EdrClaims {
        jti: "8c4a3c70-3f0a-4d2e-9b7a-0e4f6b1d2c3a".to_string(),
        aud: "audience".to_string(),
        iss: "issuer \"quoted\" \\ back\nline".to_string(),
        sub: "participant".to_string(),
        exp: now() + 100,
        iat: now(),
        transfer_id: "process".to_string(),
    };
    let token = manager.issue(&claims.to_json()).unwrap();
    let back = manager.validate_claims(&token).unwrap();
    assert_eq!(back.jti, claims.jti);
    assert_eq!(back.iss, claims.iss);
    assert_eq!(back.exp, claims.exp);
    assert_eq!(back.transfer_id(), "process");
}

#[test]
fn algorithm_names() {
    assert_eq!(Algorithm::from_name("EdDSA"), Some(Algorithm::EdDSA));
    assert_eq!(Algorithm::from_name("RS256"), Some(Algorithm::RS256));
    assert_eq!(Algorithm::from_name("eddsa"), None);
}
