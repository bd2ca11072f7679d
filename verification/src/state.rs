//! Device state, actions, and the pure reducer of the provisioning flow.

use vstd::prelude::*;

verus! {

/// Number of accept/reject topics the device subscribes to before it
/// requests a certificate.
pub const SUB_TOPIC_COUNT: usize = 4;

/// Terminal, application-level failure of the provisioning flow, as
/// reported by the backend on one of the rejection topics.  The message
/// is the raw body of the rejection, byte for byte.
pub enum AppError {
    CertificateCreationError(Vec<u8>),
    ProvisioningRequestError(Vec<u8>),
}

/// Spec-level equality of two errors: same variant, same message bytes.
pub open spec fn error_eq(a: AppError, b: AppError) -> bool {
    match (a, b) {
        (AppError::CertificateCreationError(x), AppError::CertificateCreationError(y)) => x@ == y@,
        (AppError::ProvisioningRequestError(x), AppError::ProvisioningRequestError(y)) => x@ == y@,
        _ => false,
    }
}

/// State snapshot of the provisioning flow.  The transport handle stays
/// with the driver; the snapshot holds plain values only.
pub struct AppState {
    /// Immutable identity of the device, as the bytes of its serial number.
    pub serial_number: Vec<u8>,
    /// True once the backend has accepted the registration request.
    pub provisioned: bool,
    /// How many of the accept/reject topics have been subscribed so far.
    pub sub_count: usize,
    /// First terminal failure recorded, if any.
    pub error: Option<AppError>,
}

impl AppState {
    /// Invariant of every snapshot the flow produces.
    pub open spec fn wf(self) -> bool {
        self.sub_count <= SUB_TOPIC_COUNT
    }

    /// A fresh snapshot: nothing subscribed, no error recorded.
    pub fn new(serial_number: Vec<u8>, provisioned: bool) -> (s: AppState)
        ensures
            s.serial_number@ == serial_number@,
            s.provisioned == provisioned,
            s.sub_count == 0,
            s.error is None,
            s.wf(),
    {
        AppState { serial_number, provisioned, sub_count: 0, error: None }
    }
}

/// One atomic change of the state snapshot.  Immutable, consumed once.
pub enum AppAction {
    SetSubCount(usize),
    SetProvisioned(bool),
    SetError(AppError),
}

/// What the reducer returns: each action replaces exactly one field,
/// `SetError` unconditionally overwriting any earlier error.
pub open spec fn spec_reduce(state: AppState, action: AppAction) -> AppState {
    match action {
        AppAction::SetSubCount(sub_count) => AppState { sub_count, ..state },
        AppAction::SetProvisioned(provisioned) => AppState { provisioned, ..state },
        AppAction::SetError(app_error) => AppState { error: Some(app_error), ..state },
    }
}

/// Pure, total reducer: applies one action to a snapshot and returns the
/// next snapshot.  No side effects and no failure path; the result is a
/// function of the two arguments alone.
pub fn reducer(app_state: AppState, action: AppAction) -> (r: AppState)
    ensures
        r == spec_reduce(app_state, action),
{
    match action {
        AppAction::SetSubCount(sub_count) => AppState { sub_count, ..app_state },
        AppAction::SetProvisioned(provisioned) => AppState { provisioned, ..app_state },
        AppAction::SetError(app_error) => AppState { error: Some(app_error), ..app_state },
    }
}

/// The reducer is pure: its contract pins the result to
/// `spec_reduce(state, action)`, so two applications to identical inputs
/// yield identical outputs.
pub proof fn lemma_reducer_deterministic(s: AppState, a: AppAction, r1: AppState, r2: AppState)
    requires
        r1 == spec_reduce(s, a),
        r2 == spec_reduce(s, a),
    ensures
        r1 == r2,
{
}

} // verus!
