use edc_dataplane::config::{
    default_db, default_proxy_port, default_refresh_token_duration, default_renewal_port,
    default_signaling_port, default_token_duration, default_token_leeway, Database,
};
use edc_dataplane::namespace::{Namespace, DSPACE_PREFIX, EDC_PREFIX};
use edc_dataplane::proxy::{bearer_token, AuthError, ProxyError};
use edc_dataplane::registration::{RegistrationExtension, RegistrationStep, SignalingConfig};
use edc_dataplane::signaling::{DataAddress, EndpointProperty};
use edc_dataplane::transfer::{get_bool_property, HttpData, TransferKind, TransferKindError};

fn edc(term: &str) -> String {
    Namespace(EDC_PREFIX).to_iri(term)
}

fn address(endpoint_type: &str, props: Vec<(String, &str)>) -> DataAddress {
    DataAddress {
        endpoint_type: endpoint_type.to_string(),
        endpoint_properties: props
            .into_iter()
            .map(|(n, v)| EndpointProperty::new(n, v.to_string()))
            .collect(),
    }
}

#[test]
fn defaults() {
    assert_eq!(default_signaling_port(), 8787);
    assert_eq!(default_renewal_port(), 8788);
    assert_eq!(default_proxy_port(), 8789);
    assert_eq!(default_token_duration(), 600);
    assert_eq!(default_refresh_token_duration(), 2592000);
    assert_eq!(default_token_leeway(), 60);
    let Database::Sqlite { path } = default_db();
    assert_eq!(path, ":memory:");
}

#[test]
fn namespaces() {
    assert_eq!(edc("baseUrl"), "https://w3id.org/edc/v0.0.1/ns/baseUrl");
    assert_eq!(Namespace(DSPACE_PREFIX).ns(), "https://w3id.org/dspace/v0.8/");
}

#[test]
fn get_property_returns_the_first_match() {
    let a = address("X", vec![("k".to_string(), "1"), ("j".to_string(), "2"), ("k".to_string(), "3")]);
    assert_eq!(a.get_property("k"), Some("1"));
    assert_eq!(a.get_property("j"), Some("2"));
    assert_eq!(a.get_property("z"), None);
}

#[test]
fn flags_are_set_only_by_true() {
    let a = address(
        "HttpData",
        vec![(edc("proxyPath"), "true"), (edc("proxyMethod"), "yes"), (edc("proxyQueryParams"), "false")],
    );
    assert!(get_bool_property(&a, "proxyPath"));
    assert!(!get_bool_property(&a, "proxyMethod"));
    assert!(!get_bool_property(&a, "proxyQueryParams"));
    assert!(!get_bool_property(&a, "missing"));
}

#[test]
fn transfer_kinds() {
    let ok = address("HttpData", vec![(edc("baseUrl"), "http://upstream:9000/p"), (edc("proxyPath"), "true")]);
    let TransferKind::HttpData(d) = TransferKind::try_from(&ok).unwrap();
    assert_eq!(d.base_url.host.as_deref(), Some("upstream"));
    assert_eq!(d.base_url.port, Some(9000));
    assert_eq!(d.base_url.path, "/p");
    assert!(d.proxy_path);
    assert!(!d.proxy_method);
    let wrong = address("FakeType", vec![(edc("baseUrl"), "http://upstream/")]);
    assert!(matches!(TransferKind::try_from(&wrong), Err(TransferKindError::UnsupportedType)));
    let missing = address("HttpData", vec![]);
    assert!(matches!(HttpData::try_from(&missing), Err(TransferKindError::MissingBaseUrl)));
    let invalid = address("HttpData", vec![(edc("baseUrl"), "not a url")]);
    assert!(matches!(HttpData::try_from(&invalid), Err(TransferKindError::InvalidBaseUrl)));
}

#[test]
fn error_codes() {
    assert_eq!(ProxyError::MissingToken.to_response_code(), 403);
    assert_eq!(ProxyError::InvalidTransfer.to_response_code(), 403);
    assert_eq!(ProxyError::InvalidUri.to_response_code(), 502);
    assert_eq!(ProxyError::MissingToken.to_response(), (403, "Missing token"));
    assert_eq!(ProxyError::InvalidUri.to_response(), (502, "Bad gateway"));
    assert_eq!(AuthError::ExpiredToken.to_response(), (403, "Expired token"));
    assert_eq!(AuthError::InvalidToken.to_response(), (400, "Invalid token"));
    assert_eq!(AuthError::WrongCredentials.to_response(), (401, "Wrong credentials"));
}

#[test]
fn bearer_prefix_is_stripped() {
    assert_eq!(bearer_token("Bearer abc"), "abc");
    assert_eq!(bearer_token("abc"), "abc");
    assert_eq!(bearer_token("Bear"), "Bear");
}

#[test]
fn registration_message() {
    let ext = RegistrationExtension::new(
        "dp-1".to_string(),
        SignalingConfig {
            control_plane_url: "http://cp".to_string(),
            signaling_url: "http://dp/api".to_string(),
            transfer_types: vec!["HttpData-PULL".to_string()],
            source_types: vec!["HttpData".to_string()],
        },
    );
    assert_eq!(ext.registration_url(), "http://cp/v1/dataplanes");
    let body: serde_json::Value = serde_json::from_str(&ext.registration_body()).unwrap();
    assert_eq!(body["@context"]["@vocab"], "https://w3id.org/edc/v0.0.1/ns/");
    assert_eq!(body["@id"], "dp-1");
    assert_eq!(body["url"], "http://dp/api");
    assert_eq!(body["allowedTransferTypes"][0], "HttpData-PULL");
    assert_eq!(body["allowedSourceTypes"][0], "HttpData");
    assert_eq!(body["allowedDestTypes"][0], "HttpData");
    assert_eq!(RegistrationExtension::next_step(Some(201)), RegistrationStep::Done);
    assert_eq!(RegistrationExtension::next_step(Some(500)), RegistrationStep::RetryAfterSeconds(2));
    assert_eq!(RegistrationExtension::next_step(None), RegistrationStep::RetryAfterSeconds(2));
}
