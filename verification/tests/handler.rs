use fleet_provisioning::handler::{handle_mqtt_event, Command, MqttEvent};
use fleet_provisioning::state::{AppError, AppState};
use fleet_provisioning::store::Store;

const CERT_ACCEPTED: &str = "$aws/certificates/create/json/accepted";
const CERT_REJECTED: &str = "$aws/certificates/create/json/rejected";
const PROVISION_ACCEPTED: &str =
    "$aws/provisioning-templates/iot_provisioning_template/provision/json/accepted";
const PROVISION_REJECTED: &str =
    "$aws/provisioning-templates/iot_provisioning_template/provision/json/rejected";

fn fresh_store() -> Store {
    Store::new(AppState::new(b"SN123".to_vec(), false))
}

fn publish(topic: &str, payload: &[u8]) -> MqttEvent {
    MqttEvent::Publish { topic: topic.to_string(), payload: payload.to_vec() }
}

#[test]
fn connack_subscribes_first_registry_topic() {
    let mut store = fresh_store();
    let cmds = handle_mqtt_event(&mut store, MqttEvent::ConnAck).unwrap();
    assert_eq!(cmds.len(), 1);
    match &cmds[0] {
        Command::Subscribe { topic } => assert_eq!(topic, CERT_ACCEPTED),
        _ => panic!("connection establishment must subscribe"),
    }
    assert_eq!(store.sub_count(), 0);
}

#[test]
fn connack_when_provisioned_is_a_noop() {
    let mut store = Store::new(AppState::new(b"SN123".to_vec(), true));
    let cmds = handle_mqtt_event(&mut store, MqttEvent::ConnAck).unwrap();
    assert!(cmds.is_empty());
}

#[test]
fn suback_sequence_subscribes_in_order_then_requests_certificate() {
    let mut store = fresh_store();
    let expected_topics = [
        CERT_REJECTED,
        PROVISION_ACCEPTED,
        PROVISION_REJECTED,
    ];
    for (k, expected) in expected_topics.iter().enumerate() {
        let cmds = handle_mqtt_event(&mut store, MqttEvent::SubAck).unwrap();
        assert_eq!(store.sub_count(), k + 1);
        assert_eq!(cmds.len(), 1);
        match &cmds[0] {
            Command::Subscribe { topic } => assert_eq!(topic, expected),
            _ => panic!("an acknowledgment with registry entries left must subscribe"),
        }
    }
    let cmds = handle_mqtt_event(&mut store, MqttEvent::SubAck).unwrap();
    assert_eq!(store.sub_count(), 4);
    assert_eq!(cmds.len(), 1);
    match &cmds[0] {
        Command::Publish { topic, payload } => {
            assert_eq!(topic, "$aws/certificates/create/json");
            assert!(payload.is_empty());
        }
        _ => panic!("the full registry must trigger the certificate request"),
    }
}

#[test]
fn suback_beyond_registry_changes_nothing() {
    let mut store = fresh_store();
    for _ in 0..4 {
        handle_mqtt_event(&mut store, MqttEvent::SubAck).unwrap();
    }
    assert_eq!(store.sub_count(), 4);
    let cmds = handle_mqtt_event(&mut store, MqttEvent::SubAck).unwrap();
    assert!(cmds.is_empty());
    assert_eq!(store.sub_count(), 4);
}

#[test]
fn certificate_accepted_writes_credentials_and_registers() {
    let mut store = fresh_store();
    let payload = br#"{"certificateId":"c1","certificateOwnershipToken":"tok","certificatePem":"PEM","privateKey":"KEY"}"#;
    let cmds = handle_mqtt_event(&mut store, publish(CERT_ACCEPTED, payload)).unwrap();
    assert_eq!(cmds.len(), 3);
    match &cmds[0] {
        Command::WriteFile { path, contents } => {
            assert_eq!(path, "certificate.pem");
            assert_eq!(contents, &b"PEM".to_vec());
        }
        _ => panic!("the certificate must be persisted first"),
    }
    match &cmds[1] {
        Command::WriteFile { path, contents } => {
            assert_eq!(path, "private_key.pem");
            assert_eq!(contents, &b"KEY".to_vec());
        }
        _ => panic!("the private key must be persisted second"),
    }
    match &cmds[2] {
        Command::Publish { topic, payload } => {
            assert_eq!(
                topic,
                "$aws/provisioning-templates/iot_provisioning_template/provision/json"
            );
            let expected = "{\"certificateOwnershipToken\":\"tok\",\"parameters\":{\"SerialNumber\":\"SN123\",\"AWS::IoT::Certificate::Id\":\"c1\"}}";
            assert_eq!(payload, &expected.as_bytes().to_vec());
        }
        _ => panic!("the registration request must be published"),
    }
    assert!(!store.provisioned());
    assert!(store.error_of().is_none());
}

#[test]
fn provision_accepted_sets_provisioned() {
    let mut store = fresh_store();
    assert!(!store.provisioned());
    let cmds = handle_mqtt_event(&mut store, publish(PROVISION_ACCEPTED, b"{}")).unwrap();
    assert!(cmds.is_empty());
    assert!(store.provisioned());
    assert!(store.error_of().is_none());
}

#[test]
fn certificate_rejected_records_terminal_error() {
    let mut store = fresh_store();
    let cmds = handle_mqtt_event(&mut store, publish(CERT_REJECTED, b"quota exceeded")).unwrap();
    assert!(cmds.is_empty());
    assert!(!store.provisioned());
    match store.error_of() {
        Some(AppError::CertificateCreationError(m)) => assert_eq!(m, b"quota exceeded".to_vec()),
        _ => panic!("the rejection body must be recorded"),
    }
}

#[test]
fn provision_rejected_records_terminal_error() {
    let mut store = fresh_store();
    let cmds =
        handle_mqtt_event(&mut store, publish(PROVISION_REJECTED, b"bad template")).unwrap();
    assert!(cmds.is_empty());
    match store.error_of() {
        Some(AppError::ProvisioningRequestError(m)) => assert_eq!(m, b"bad template".to_vec()),
        _ => panic!("the rejection body must be recorded"),
    }
}

#[test]
fn malformed_accepted_payload_fails_and_leaves_state_unchanged() {
    let mut store = fresh_store();
    handle_mqtt_event(&mut store, MqttEvent::SubAck).unwrap();
    handle_mqtt_event(&mut store, MqttEvent::SubAck).unwrap();
    assert_eq!(store.sub_count(), 2);
    let r = handle_mqtt_event(&mut store, publish(CERT_ACCEPTED, b"not json"));
    assert!(r.is_err());
    assert_eq!(store.sub_count(), 2);
    assert!(!store.provisioned());
    assert!(store.error_of().is_none());
}

#[test]
fn unknown_topic_and_other_events_are_noops() {
    let mut store = fresh_store();
    let cmds = handle_mqtt_event(&mut store, publish("some/other/topic", b"x")).unwrap();
    assert!(cmds.is_empty());
    let cmds = handle_mqtt_event(&mut store, MqttEvent::Other).unwrap();
    assert!(cmds.is_empty());
    assert_eq!(store.sub_count(), 0);
    assert!(!store.provisioned());
    assert!(store.error_of().is_none());
}
