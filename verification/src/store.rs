//! Single-writer state container: holds the current snapshot and applies
//! actions through the reducer, one at a time.

use vstd::prelude::*;
use crate::state::{AppAction, AppError, AppState, spec_reduce};
use crate::util::clone_bytes;

verus! {

/// An action handed to the store.  Direct actions are applied
/// synchronously through the reducer.  Deferred, effect-performing work
/// is not a store action here: the event handler returns it as command
/// values that the driver interprets (see `crate::handler::Command`).
pub enum Action {
    Direct(AppAction),
}

/// What dispatching an action does to the snapshot.
pub open spec fn spec_dispatch(state: AppState, action: Action) -> AppState {
    match action {
        Action::Direct(a) => spec_reduce(state, a),
    }
}

/// The state container.  It owns the snapshot exclusively; callers read
/// it through `select` or the projections below and change it only
/// through `dispatch`.
pub struct Store {
    state: AppState,
}

impl View for Store {
    type V = AppState;

    closed spec fn view(&self) -> AppState {
        self.state
    }
}

impl Store {
    /// A store holding the given initial snapshot.
    pub fn new(state: AppState) -> (s: Store)
        ensures
            s@ == state,
    {
        Store { state }
    }

    /// Replaces the snapshot with `reducer(current, action)`.  The
    /// reducer never fails, so neither does dispatch.
    pub fn dispatch(&mut self, action: Action)
        ensures
            final(self)@ == spec_dispatch(old(self)@, action),
    {
        let Action::Direct(a) = action;
        match a {
            AppAction::SetSubCount(sub_count) => {
                self.state.sub_count = sub_count;
            },
            AppAction::SetProvisioned(provisioned) => {
                self.state.provisioned = provisioned;
            },
            AppAction::SetError(app_error) => {
                self.state.error = Option::Some(app_error);
            },
        }
    }

    /// Returns a derived read-only value of the current snapshot; never
    /// changes it and never fails.
    pub fn select<T, F: Fn(&AppState) -> T>(&self, selector: F) -> (r: T)
        requires
            call_requires(selector, (&self@,)),
        ensures
            call_ensures(selector, (&self@,), r),
    {
        selector(&self.state)
    }

    /// Whether the backend has accepted the registration request.
    pub fn provisioned(&self) -> (r: bool)
        ensures
            r == self@.provisioned,
    {
        self.state.provisioned
    }

    /// How many subscription topics are active.
    pub fn sub_count(&self) -> (r: usize)
        ensures
            r == self@.sub_count,
    {
        self.state.sub_count
    }

    /// The device's serial number bytes.
    pub fn serial_number(&self) -> (r: &Vec<u8>)
        ensures
            r@ == self@.serial_number@,
    {
        &self.state.serial_number
    }

    /// A copy of the recorded terminal error, if any.
    pub fn error_of(&self) -> (r: Option<AppError>)
        ensures
            match (r, self@.error) {
                (Option::None, Option::None) => true,
                (Option::Some(a), Option::Some(b)) => crate::state::error_eq(a, b),
                _ => false,
            },
    {
        match &self.state.error {
            Option::None => Option::None,
            Option::Some(AppError::CertificateCreationError(m)) => Option::Some(
                AppError::CertificateCreationError(clone_bytes(m)),
            ),
            Option::Some(AppError::ProvisioningRequestError(m)) => Option::Some(
                AppError::ProvisioningRequestError(clone_bytes(m)),
            ),
        }
    }
}

} // verus!
