use edc_dataplane::claims::EdrClaims;

fn sample() -> EdrClaims {
    EdrClaims {
        jti: "id".to_string(),
        aud: "http://localhost:8080/public".to_string(),
        iss: "issuer".to_string(),
        sub: "participant_id".to_string(),
        exp: 1700000600,
        iat: -5,
        transfer_id: "process_id".to_string(),
    }
}

#[test]
fn claims_json_layout() {
    assert_eq!(
        sample().to_json(),
        "{\"jti\":\"id\",\"aud\":\"http://localhost:8080/public\",\"iss\":\"issuer\",\"sub\":\"participant_id\",\"exp\":1700000600,\"iat\":-5,\"transfer_id\":\"process_id\"}"
    );
}

#[test]
fn claims_escapes_quotes_backslashes_and_controls() {
    let mut c = sample();
    c.sub = "a\"b\\c\nd".to_string();
    let text = c.to_json();
    assert!(text.contains("\"sub\":\"a\\u0022b\\u005cc\\u000ad\""));
    let parsed: serde_json::Value = serde_json::from_str(&text).unwrap();
    assert_eq!(parsed["sub"], "a\"b\\c\nd");
    assert_eq!(parsed["exp"], 1700000600);
}

#[test]
fn claims_round_trip() {
    let mut c = sample();
    c.iss = "ünïcödé \u{1} \"x\"".to_string();
    c.exp = i64::MAX;
    c.iat = i64::MIN;
    let back = EdrClaims::from_json(&c.to_json()).unwrap();
    assert_eq!(back.iss, c.iss);
    assert_eq!(back.exp, i64::MAX);
    assert_eq!(back.iat, i64::MIN);
    assert_eq!(back.jti(), "id");
    assert_eq!(back.sub, "participant_id");
}

#[test]
fn claims_in_other_layouts_are_refused() {
    assert!(EdrClaims::from_json("{}").is_none());
    let text = sample().to_json().replace(",\"iat\":", ", \"iat\":");
    assert!(EdrClaims::from_json(&text).is_none());
    let text = sample().to_json().replace("1700000600", "01700000600");
    assert!(EdrClaims::from_json(&text).is_none());
    let text = sample().to_json().replace("1700000600", "99999999999999999999");
    assert!(EdrClaims::from_json(&text).is_none());
    let text = sample().to_json() + " ";
    assert!(EdrClaims::from_json(&text).is_none());
}
