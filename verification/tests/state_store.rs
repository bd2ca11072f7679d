use fleet_provisioning::state::{reducer, AppAction, AppError, AppState};
use fleet_provisioning::store::{Action, Store};

#[test]
fn reducer_sets_sub_count() {
    let s = AppState::new(b"SN123".to_vec(), false);
    let s2 = reducer(s, AppAction::SetSubCount(3));
    assert_eq!(s2.sub_count, 3);
    assert!(!s2.provisioned);
    assert!(s2.error.is_none());
    assert_eq!(s2.serial_number, b"SN123".to_vec());
}

#[test]
fn reducer_sets_provisioned() {
    let s = AppState::new(b"SN123".to_vec(), false);
    let s2 = reducer(s, AppAction::SetProvisioned(true));
    assert!(s2.provisioned);
    assert_eq!(s2.sub_count, 0);
    assert!(s2.error.is_none());
}

#[test]
fn reducer_overwrites_error() {
    let s = AppState::new(b"SN123".to_vec(), false);
    let s2 = reducer(
        s,
        AppAction::SetError(AppError::CertificateCreationError(b"first".to_vec())),
    );
    let s3 = reducer(
        s2,
        AppAction::SetError(AppError::ProvisioningRequestError(b"second".to_vec())),
    );
    match s3.error {
        Some(AppError::ProvisioningRequestError(m)) => assert_eq!(m, b"second".to_vec()),
        _ => panic!("the later error must replace the earlier one"),
    }
}

#[test]
fn reducer_is_pure() {
    let a = reducer(
        AppState::new(b"SN123".to_vec(), false),
        AppAction::SetSubCount(2),
    );
    let b = reducer(
        AppState::new(b"SN123".to_vec(), false),
        AppAction::SetSubCount(2),
    );
    assert_eq!(a.sub_count, b.sub_count);
    assert_eq!(a.provisioned, b.provisioned);
    assert_eq!(a.serial_number, b.serial_number);
    assert!(a.error.is_none() && b.error.is_none());
}

#[test]
fn store_dispatch_and_select() {
    let mut store = Store::new(AppState::new(b"SN123".to_vec(), false));
    assert_eq!(store.sub_count(), 0);
    assert!(!store.provisioned());
    store.dispatch(Action::Direct(AppAction::SetSubCount(2)));
    assert_eq!(store.sub_count(), 2);
    let n = store.select(|s: &AppState| s.sub_count);
    assert_eq!(n, 2);
    store.dispatch(Action::Direct(AppAction::SetProvisioned(true)));
    assert!(store.provisioned());
    assert_eq!(store.serial_number(), &b"SN123".to_vec());
}

#[test]
fn store_error_projection() {
    let mut store = Store::new(AppState::new(b"SN123".to_vec(), false));
    assert!(store.error_of().is_none());
    store.dispatch(Action::Direct(AppAction::SetError(
        AppError::CertificateCreationError(b"quota exceeded".to_vec()),
    )));
    match store.error_of() {
        Some(AppError::CertificateCreationError(m)) => assert_eq!(m, b"quota exceeded".to_vec()),
        _ => panic!("the recorded error must be readable"),
    }
}
