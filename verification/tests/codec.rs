use fleet_provisioning::codec::{
    build_registration_body, parse_credential, RegistrationParameters, RegistrationRequest,
};

fn request(token: &[u8], serial: &[u8], cert_id: &[u8]) -> RegistrationRequest {
    RegistrationRequest {
        ownership_token: token.to_vec(),
        parameters: RegistrationParameters {
            serial_number: serial.to_vec(),
            certificate_id: cert_id.to_vec(),
        },
    }
}

#[test]
fn registration_body_exact() {
    let body = build_registration_body(&request(b"tok", b"SN123", b"c1"));
    let expected = "{\"certificateOwnershipToken\":\"tok\",\"parameters\":{\"SerialNumber\":\"SN123\",\"AWS::IoT::Certificate::Id\":\"c1\"}}";
    assert_eq!(body, expected.as_bytes().to_vec());
}

#[test]
fn registration_body_escapes() {
    let body = build_registration_body(&request(b"a\"b\\c", b"S\nN", b"c\x01"));
    let expected = "{\"certificateOwnershipToken\":\"a\\\"b\\\\c\",\"parameters\":{\"SerialNumber\":\"S\\nN\",\"AWS::IoT::Certificate::Id\":\"c\\u0001\"}}";
    assert_eq!(body, expected.as_bytes().to_vec());
}

#[test]
fn registration_body_parses_back_with_serde() {
    let body = build_registration_body(&request(b"tok\"en", b"SN123", b"c1"));
    let v: serde_json::Value = serde_json::from_slice(&body).expect("the frame must be JSON");
    assert_eq!(
        v.get("certificateOwnershipToken").and_then(|x| x.as_str()),
        Some("tok\"en")
    );
    let params = v.get("parameters").expect("parameters object");
    assert_eq!(
        params.get("SerialNumber").and_then(|x| x.as_str()),
        Some("SN123")
    );
    assert_eq!(
        params.get("AWS::IoT::Certificate::Id").and_then(|x| x.as_str()),
        Some("c1")
    );
}

#[test]
fn parse_credential_basic() {
    let payload = br#"{"certificateId":"c1","certificateOwnershipToken":"tok","certificatePem":"PEM","privateKey":"KEY"}"#;
    let cred = parse_credential(&payload.to_vec()).expect("well-formed payload");
    assert_eq!(cred.certificate_id, b"c1".to_vec());
    assert_eq!(cred.ownership_token, b"tok".to_vec());
    assert_eq!(cred.certificate_pem, b"PEM".to_vec());
    assert_eq!(cred.private_key, b"KEY".to_vec());
}

#[test]
fn parse_credential_any_order_whitespace_and_extras() {
    let payload = b" {\n\t\"privateKey\" : \"KEY\" ,\r\n \"extra\" : \"ignored\" ,\
 \"certificatePem\": \"PEM\", \"certificateOwnershipToken\": \"tok\",\
 \"certificateId\": \"c1\" } \n";
    let cred = parse_credential(&payload.to_vec()).expect("order and whitespace are free");
    assert_eq!(cred.certificate_id, b"c1".to_vec());
    assert_eq!(cred.ownership_token, b"tok".to_vec());
    assert_eq!(cred.certificate_pem, b"PEM".to_vec());
    assert_eq!(cred.private_key, b"KEY".to_vec());
}

#[test]
fn parse_credential_decodes_escapes() {
    let payload = br#"{"certificateId":"a\"b","certificateOwnershipToken":"t\\o\/k","certificatePem":"P\nE\tM","privateKey":"K\rE\bY\f"}"#;
    let cred = parse_credential(&payload.to_vec()).expect("escapes are accepted");
    assert_eq!(cred.certificate_id, b"a\"b".to_vec());
    assert_eq!(cred.ownership_token, b"t\\o/k".to_vec());
    assert_eq!(cred.certificate_pem, b"P\nE\tM".to_vec());
    assert_eq!(cred.private_key, b"K\rE\x08Y\x0c".to_vec());
}

#[test]
fn parse_credential_missing_field() {
    let payload = br#"{"certificateId":"c1","certificateOwnershipToken":"tok","certificatePem":"PEM"}"#;
    assert!(parse_credential(&payload.to_vec()).is_none());
}

#[test]
fn parse_credential_duplicate_field() {
    let payload = br#"{"certificateId":"c1","certificateId":"c2","certificateOwnershipToken":"tok","certificatePem":"PEM","privateKey":"KEY"}"#;
    assert!(parse_credential(&payload.to_vec()).is_none());
}

#[test]
fn parse_credential_rejects_non_object() {
    assert!(parse_credential(&b"[1,2]".to_vec()).is_none());
    assert!(parse_credential(&b"\"just a string\"".to_vec()).is_none());
    assert!(parse_credential(&b"".to_vec()).is_none());
    assert!(parse_credential(&b"not json at all".to_vec()).is_none());
}

#[test]
fn parse_credential_rejects_trailing_garbage() {
    let payload = br#"{"certificateId":"c1","certificateOwnershipToken":"tok","certificatePem":"PEM","privateKey":"KEY"} x"#;
    assert!(parse_credential(&payload.to_vec()).is_none());
}

#[test]
fn parse_credential_rejects_truncated() {
    let payload = br#"{"certificateId":"c1","certificateOwnershipToken":"tok""#;
    assert!(parse_credential(&payload.to_vec()).is_none());
}

#[test]
fn parse_credential_rejects_non_string_member() {
    let payload = br#"{"certificateId":"c1","certificateOwnershipToken":"tok","certificatePem":"PEM","privateKey":"KEY","n":5}"#;
    assert!(parse_credential(&payload.to_vec()).is_none());
}

#[test]
fn parse_credential_empty_object() {
    assert!(parse_credential(&b"{}".to_vec()).is_none());
    assert!(parse_credential(&b" { } ".to_vec()).is_none());
}

#[test]
fn parse_credential_agrees_with_serde_built_payload() {
    let mut map = serde_json::Map::new();
    map.insert(
        "certificateId".to_string(),
        serde_json::Value::String("c-9".to_string()),
    );
    map.insert(
        "certificateOwnershipToken".to_string(),
        serde_json::Value::String("line1\nline2".to_string()),
    );
    map.insert(
        "certificatePem".to_string(),
        serde_json::Value::String("--BEGIN--".to_string()),
    );
    map.insert(
        "privateKey".to_string(),
        serde_json::Value::String("secret \"key\"".to_string()),
    );
    let payload = serde_json::to_vec(&serde_json::Value::Object(map)).unwrap();
    let cred = parse_credential(&payload).expect("serde-framed payload is in the grammar");
    assert_eq!(cred.certificate_id, b"c-9".to_vec());
    assert_eq!(cred.ownership_token, b"line1\nline2".to_vec());
    assert_eq!(cred.certificate_pem, b"--BEGIN--".to_vec());
    assert_eq!(cred.private_key, b"secret \"key\"".to_vec());
}
