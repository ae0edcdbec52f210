use ed25519_compact::{KeyPair, Seed};
use edc_dataplane::config::KeyFormat;
use edc_dataplane::edr::{EdrError, EdrManager, RefreshTokenId, TokenId, TokenRequest};
use edc_dataplane::namespace::{Namespace, EDC_PREFIX, IDSA_PREFIX};
use edc_dataplane::proxy::{ProxyError, PublicProxy};
use edc_dataplane::service::{Context, RefreshError, RefreshManager, SignalingError, TransferService};
use edc_dataplane::signaling::{DataAddress, DataFlowStartMessage, EndpointProperty, FlowType};
use edc_dataplane::token::{Algorithm, TokenError, TokenManagerImpl};
use edc_dataplane::transfer::{Transfer, TransferStatus};

struct Plane {
    ctx: Context,
    transfers: TransferService,
    refresh: RefreshManager,
    proxy: PublicProxy,
}

fn tokens(sk: &str, pk: &str) -> TokenManagerImpl {
    TokenManagerImpl::new(
        sk.to_string(),
        pk.to_string(),
        "http://localhost:8080/public".to_string(),
        Algorithm::EdDSA,
        "kid".to_string(),
        KeyFormat::Pem,
        0,
    )
}

fn edrs(sk: &str, pk: &str, token_duration: u64, refresh_duration: u64) -> EdrManager {
    EdrManager {
        proxy_url: "http://localhost:8080/public".to_string(),
        token_url: "http://localhost:8080/token".to_string(),
        issuer: "issuer".to_string(),
        jwks_url: "http://localhost:8080/.well-known/jwks.json".to_string(),
        tokens: tokens(sk, pk),
        token_duration,
        refresh_token_duration: refresh_duration,
    }
}

fn plane(token_duration: u64, refresh_duration: u64) -> Plane {
    let kp = KeyPair::from_seed(Seed::default());
    let (sk, pk) = (kp.sk.to_pem(), kp.pk.to_pem());
    Plane {
        ctx: Context::new(),
        transfers: TransferService::new(edrs(&sk, &pk, token_duration, refresh_duration)),
        refresh: RefreshManager::new(edrs(&sk, &pk, token_duration, refresh_duration)),
        proxy: PublicProxy::new(tokens(&sk, &pk)),
    }
}

fn edc(term: &str) -> String {
    Namespace(EDC_PREFIX).to_iri(term)
}

fn start_request(process_id: &str, endpoint_type: &str, base_url: &str) -> DataFlowStartMessage {
    DataFlowStartMessage {
        agreement_id: "agreement".to_string(),
        dataset_id: "dataset".to_string(),
        participant_id: "participant_id".to_string(),
        process_id: process_id.to_string(),
        flow_type: FlowType::Pull,
        source_data_address: DataAddress {
            endpoint_type: endpoint_type.to_string(),
            endpoint_properties: vec![EndpointProperty::new(edc("baseUrl"), base_url.to_string())],
        },
    }
}

fn now() -> i64 {
    chrono::Utc::now().timestamp()
}

/// Starts a transfer and hands back its access and refresh tokens.
fn begin(p: &mut Plane, process_id: &str, issued_at: i64) -> (String, String) {
    let req = start_request(process_id, "HttpData", "http://upstream/");
    let id = uuid::Uuid::new_v4().as_u128();
    let rid = uuid::Uuid::new_v4().as_u128();
    let resp = p
        .transfers
        .start_with(&mut p.ctx, req, TokenId(id), RefreshTokenId(rid), issued_at)
        .unwrap();
    let address = resp.data_address.expect("Data address is missing");
    let access = address.get_property(&edc("access_token")).unwrap().to_string();
    let refresh = address.get_property(&edc("refresh_token")).unwrap().to_string();
    (access, refresh)
}

fn proxy_status(p: &Plane, token: &str) -> u16 {
    let header = format!("Bearer {}", token);
    match p.proxy.parse_upstream_request(&p.ctx, Some(header.as_bytes())) {
        Ok(_) => 200,
        Err(e) => e.to_response_code(),
    }
}

#[test]
fn start() {
    let mut p = plane(600, 3600);
    let req = start_request("process_id", "HttpData", "http://localhost:8080");
    let resp = p.transfers.start(&mut p.ctx, req, now()).unwrap();
    let address = resp.data_address.expect("Data address is missing");
    assert_eq!(address.endpoint_type, Namespace(IDSA_PREFIX).to_iri("HTTP"));
    assert!(address.get_property(&edc("access_token")).is_some());
    let t = p.transfers.get(&p.ctx, "process_id").unwrap();
    assert_eq!(t.status, TransferStatus::Started);
}

#[test]
fn start_transfer() {
    let mut p = plane(600, 3600);
    let req = start_request("process_id", "HttpData", "http://localhost:8080");
    let data_address = p
        .transfers
        .start(&mut p.ctx, req, now())
        .unwrap()
        .data_address
        .expect("Data address is missing");
    assert_eq!(data_address.endpoint_type, Namespace(IDSA_PREFIX).to_iri("HTTP"));
    assert_eq!(data_address.endpoint_properties.len(), 7);
}

#[test]
fn start_fails_with_invalid_datasource() {
    let mut p = plane(600, 3600);
    let req = start_request("process_id", "FakeType", "http://localhost:8080");
    let err = p.transfers.start(&mut p.ctx, req, now()).unwrap_err();
    assert!(matches!(err, SignalingError::InvalidSourceDataAddress(_)));
    assert_eq!(err.to_response(), (400, "Invalid Source Data Address"));
    assert!(p.transfers.get(&p.ctx, "process_id").is_none());
}

#[test]
fn start_accepts_the_namespaced_type_and_needs_an_absolute_url() {
    let mut p = plane(600, 3600);
    let req = start_request("a", &edc("HttpData"), "https://upstream:8443/base");
    assert!(p.transfers.start(&mut p.ctx, req, now()).is_ok());
    let req = start_request("b", "HttpData", "/relative");
    assert!(matches!(
        p.transfers.start(&mut p.ctx, req, now()),
        Err(SignalingError::InvalidSourceDataAddress(_))
    ));
}

fn create_transfer() -> Transfer {
    Transfer {
        id: "process_id".to_string(),
        status: TransferStatus::Started,
        source: DataAddress { endpoint_type: "MyType".to_string(), endpoint_properties: vec![] },
        participant_id: "participant_id".to_string(),
        created_at: now(),
        updated_at: now(),
    }
}

#[test]
fn edr_test_create_edr() {
    let kp = KeyPair::from_seed(Seed::default());
    let (sk, pk) = (kp.sk.to_pem(), kp.pk.to_pem());
    let edr_manager = edrs(&sk, &pk, 3600, 7200);
    let req = create_transfer();

    let edr = edr_manager.create_edr(&req, now()).unwrap();

    assert_eq!(edr.data_address.endpoint_type, Namespace(IDSA_PREFIX).to_iri("HTTP"));
    assert_eq!(edr.data_address.endpoint_properties.len(), 7);
    let access = edr.data_address.get_property(&edc("access_token")).unwrap();
    let refresh = edr.data_address.get_property(&edc("refresh_token")).unwrap();
    assert_ne!(access, refresh);
    assert_eq!(edr.data_address.get_property(&edc("endpoint")), Some(edr_manager.proxy_url.as_ref()));
    assert_eq!(edr.data_address.get_property(&edc("jwks_url")), Some(edr_manager.jwks_url.as_ref()));
    assert_eq!(edr.data_address.get_property(&edc("expires_in")), Some("3600"));
    assert_eq!(edr.data_address.get_property(&edc("token_type")), Some("Bearer"));
    assert_eq!(edr.data_address.get_property(&edc("refresh_endpoint")), Some("http://localhost:8080/token"));

    let keys = tokens(&sk, &pk);
    let claims = keys.validate_claims(access).unwrap();
    assert_eq!(claims.iss, "issuer");
    assert_eq!(claims.aud, "http://localhost:8080/public");
    assert_eq!(claims.sub, "participant_id");
    assert_eq!(claims.transfer_id, "process_id");
    assert_eq!(claims.exp - claims.iat, 3600);
    let jti = uuid::Uuid::parse_str(&claims.jti).unwrap();
    assert_eq!(jti.as_u128(), edr.token_id.0);
    assert_eq!(claims.jti, jti.hyphenated().to_string());
    let refresh_claims = keys.validate_claims(refresh).unwrap();
    assert_eq!(uuid::Uuid::parse_str(&refresh_claims.jti).unwrap().as_u128(), edr.refresh_token_id.0);
    assert_eq!(refresh_claims.exp - refresh_claims.iat, 7200);
}

#[test]
fn edr_test_create_edr_failure() {
    let kp = KeyPair::from_seed(Seed::default());
    let edr_manager = edrs("Wrong type", &kp.pk.to_pem(), 86400, 86400);
    let result = edr_manager.create_edr(&create_transfer(), now());
    if let Err(EdrError::Token(TokenError::Format(err))) = result {
        assert_eq!(err.kind(), &jsonwebtoken::errors::ErrorKind::InvalidKeyFormat);
    } else {
        panic!("Wrong type")
    }
    let manager = TransferService::new(edrs("Wrong type", &kp.pk.to_pem(), 86400, 86400));
    let mut ctx = Context::new();
    let req = start_request("process_id", "HttpData", "http://upstream/");
    assert!(matches!(manager.start(&mut ctx, req, now()), Err(SignalingError::EdrError(_))));
    assert!(manager.get(&ctx, "process_id").is_none());
}

#[test]
fn expiry_overflow_is_a_generic_error() {
    let kp = KeyPair::from_seed(Seed::default());
    let edr_manager = edrs(&kp.sk.to_pem(), &kp.pk.to_pem(), u64::MAX, 3600);
    assert!(matches!(edr_manager.create_edr(&create_transfer(), now()), Err(EdrError::Generic)));
}

#[test]
fn proxy_refusals_carry_messages() {
    let mut p = plane(2, 40);
    let (access, _) = begin(&mut p, "process_id", now() - 3);
    let header = format!("Bearer {}", access);
    let err = p.proxy.parse_upstream_request(&p.ctx, Some(header.as_bytes())).unwrap_err();
    assert_eq!(err.to_response(), (403, "Expired token"));
    let (fresh, _) = begin(&mut p, "process_id", now());
    p.transfers.suspend(&mut p.ctx, "process_id", now());
    let header = format!("Bearer {}", fresh);
    let err = p.proxy.parse_upstream_request(&p.ctx, Some(header.as_bytes())).unwrap_err();
    assert_eq!(err.to_response(), (403, "Transfer not valid or not found"));
    assert_eq!(ProxyError::Upstream.to_response(), (502, "Bad gateway"));
    let err = p.proxy.parse_upstream_request(&p.ctx, Some(b"Bearer garbage")).unwrap_err();
    assert_eq!(err.to_response(), (403, "Invalid token"));
}

#[test]
fn transfer_pull_test_single() {
    let mut p = plane(600, 3600);
    let (access, _) = begin(&mut p, "process_id", now());
    assert_eq!(proxy_status(&p, &access), 200);
    let header = format!("Bearer {}", access);
    let req = p.proxy.parse_upstream_request(&p.ctx, Some(header.as_bytes())).unwrap();
    assert_eq!(req.upstream_host(), "upstream");
    assert_eq!(req.upstream_port(), 80);
    assert!(!req.is_tls());
    assert_eq!(req.to_upstream_uri("/api/v1/public", None), "/");
    assert_eq!(req.to_upstream_uri("/api/v1/public/a/b", Some("x=1")), "//a/b?x=1");
}

#[test]
fn transfer_pull_test_with_terminate() {
    let mut p = plane(600, 3600);
    let (access, _) = begin(&mut p, "process_id", now());
    p.transfers.terminate(&mut p.ctx, "process_id", Some("termination".to_string()));
    assert_eq!(proxy_status(&p, &access), 403);
    p.transfers.terminate(&mut p.ctx, "process_id", None);
    assert!(p.transfers.get(&p.ctx, "process_id").is_none());
}

#[test]
fn transfer_pull_test_with_suspend_and_resume() {
    let mut p = plane(600, 3600);
    let (access, _) = begin(&mut p, "process_id", now());
    assert_eq!(proxy_status(&p, &access), 200);
    p.transfers.suspend(&mut p.ctx, "process_id", now());
    assert_eq!(proxy_status(&p, &access), 403);
    let (new_access, _) = begin(&mut p, "process_id", now());
    assert_eq!(proxy_status(&p, &new_access), 200);
    assert_eq!(proxy_status(&p, &access), 403);
    assert_eq!(p.transfers.get(&p.ctx, "process_id").unwrap().status, TransferStatus::Started);
}

#[test]
fn transfer_pull_test_with_token_expiration() {
    let mut p = plane(2, 40);
    let (access, refresh) = begin(&mut p, "process_id", now() - 3);
    assert_eq!(proxy_status(&p, &access), 403);
    let header = format!("Bearer {}", access);
    match p.proxy.parse_upstream_request(&p.ctx, Some(header.as_bytes())) {
        Err(ProxyError::TokenError(TokenError::Expired(e))) => {
            assert_eq!(e.kind(), &jsonwebtoken::errors::ErrorKind::ExpiredSignature)
        }
        _ => panic!("Wrong type"),
    }
    let req = TokenRequest { refresh_token: refresh, client_id: "consumer".to_string() };
    let pair = p.refresh.refresh_token(&mut p.ctx, req, now()).unwrap();
    assert_eq!(pair.expires_in, "2");
    assert_eq!(proxy_status(&p, &pair.access_token), 200);
}

#[test]
fn replayed_refresh_token_is_refused() {
    let mut p = plane(600, 3600);
    let (access, refresh) = begin(&mut p, "process_id", now());
    let req = TokenRequest { refresh_token: refresh.clone(), client_id: "consumer".to_string() };
    let pair = p.refresh.refresh_token(&mut p.ctx, req, now()).unwrap();
    let again = TokenRequest { refresh_token: refresh, client_id: "consumer".to_string() };
    let err = p.refresh.refresh_token(&mut p.ctx, again, now()).unwrap_err();
    assert!(matches!(err, RefreshError::InvalidTransfer));
    assert_eq!(err.to_response(), (400, "Wrong credentials"));
    assert_eq!(proxy_status(&p, &access), 403);
    assert_eq!(proxy_status(&p, &pair.access_token), 200);
}

#[test]
fn refresh_of_suspended_transfer_is_refused() {
    let mut p = plane(600, 3600);
    let (_, refresh) = begin(&mut p, "process_id", now());
    p.transfers.suspend(&mut p.ctx, "process_id", now());
    let req = TokenRequest { refresh_token: refresh, client_id: "consumer".to_string() };
    assert!(matches!(p.refresh.refresh_token(&mut p.ctx, req, now()), Err(RefreshError::InvalidTransfer)));
}

#[test]
fn access_token_is_no_refresh_token() {
    let mut p = plane(600, 3600);
    let (access, _) = begin(&mut p, "process_id", now());
    let req = TokenRequest { refresh_token: access, client_id: "consumer".to_string() };
    assert!(matches!(p.refresh.refresh_token(&mut p.ctx, req, now()), Err(RefreshError::InvalidTransfer)));
}

#[test]
fn proxy_refuses_missing_and_malformed_headers() {
    let mut p = plane(600, 3600);
    begin(&mut p, "process_id", now());
    assert!(matches!(p.proxy.parse_upstream_request(&p.ctx, None), Err(ProxyError::MissingToken)));
    let bad: &[u8] = &[0xff, 0xfe];
    assert!(matches!(p.proxy.parse_upstream_request(&p.ctx, Some(bad)), Err(ProxyError::MissingToken)));
    assert_eq!(proxy_status(&p, "garbage"), 403);
    assert!(PublicProxy::can_handle("/api/v1/public/x"));
    assert!(!PublicProxy::can_handle("/api/v1/other"));
}

#[test]
fn edr_manager_refresh_makes_a_new_pair() {
    let kp = KeyPair::from_seed(Seed::default());
    let (sk, pk) = (kp.sk.to_pem(), kp.pk.to_pem());
    let mut p = plane(600, 3600);
    p.transfers = TransferService::new(edrs(&sk, &pk, 600, 3600));
    p.proxy = PublicProxy::new(tokens(&sk, &pk));
    let (_, refresh) = begin(&mut p, "process_id", now());
    let manager = edrs(&sk, &pk, 600, 3600);
    let pair = manager
        .refresh_token(TokenRequest { refresh_token: refresh, client_id: "consumer".to_string() }, now())
        .unwrap();
    let claims = p.proxy.tokens.validate_claims(&pair.access_token).unwrap();
    assert_eq!(claims.transfer_id, "process_id");
    assert_eq!(claims.sub, "participant_id");
    assert_eq!(pair.expires_in, "600");
    assert!(manager
        .refresh_token(TokenRequest { refresh_token: "garbage".to_string(), client_id: "c".to_string() }, now())
        .is_err());
}

#[test]
fn refresh_expiry_overflow_is_a_generic_error() {
    let kp = KeyPair::from_seed(Seed::default());
    let edr_manager = edrs(&kp.sk.to_pem(), &kp.pk.to_pem(), 600, u64::MAX);
    assert!(matches!(edr_manager.create_edr(&create_transfer(), now()), Err(EdrError::Generic)));
}

#[test]
fn unsupported_algorithm_refuses_refresh() {
    let kp = KeyPair::from_seed(Seed::default());
    let mut manager = edrs(&kp.sk.to_pem(), &kp.pk.to_pem(), 600, 3600);
    manager.tokens = TokenManagerImpl::new(
        kp.sk.to_pem(),
        kp.pk.to_pem(),
        "http://localhost:8080/public".to_string(),
        Algorithm::RS256,
        "kid".to_string(),
        KeyFormat::Pem,
        0,
    );
    let req = TokenRequest { refresh_token: "x".to_string(), client_id: "c".to_string() };
    assert!(matches!(
        manager.refresh_token(req, now()),
        Err(EdrError::Token(TokenError::UnsupportedFormat(Algorithm::RS256, KeyFormat::Pem)))
    ));
}

#[test]
fn replayed_start_draws_new_ids() {
    let mut p = plane(600, 3600);
    let req = start_request("process_id", "HttpData", "http://upstream/");
    let first = p.transfers.start(&mut p.ctx, req, now()).unwrap().data_address.unwrap();
    let req = start_request("process_id", "HttpData", "http://upstream/");
    let second = p.transfers.start(&mut p.ctx, req, now()).unwrap().data_address.unwrap();
    let a1 = first.get_property(&edc("access_token")).unwrap();
    let a2 = second.get_property(&edc("access_token")).unwrap();
    let c1 = p.proxy.tokens.validate_claims(a1).unwrap();
    let c2 = p.proxy.tokens.validate_claims(a2).unwrap();
    assert_ne!(c1.jti, c2.jti);
    assert_eq!(proxy_status(&p, a1), 403);
    assert_eq!(proxy_status(&p, a2), 200);
}
