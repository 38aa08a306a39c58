//! The control-plane apply hook.

use vstd::prelude::*;

verus! {

/// The hook a control plane calls to apply an opaque configuration payload.
/// `accepts` states exactly which payloads an implementation takes.
pub trait ControlPlane: Sized {
    /// Which payloads this implementation applies successfully.
    spec fn accepts(&self, payload: Seq<u8>) -> bool;

    /// Applies the payload: `Ok` exactly on accepted payloads, otherwise a
    /// descriptive failure.
    fn apply_config(&self, payload: &[u8]) -> (r: Result<(), String>)
        ensures
            r is Ok <==> self.accepts(payload@),
    ;
}

/// A control plane that accepts every payload and applies nothing.
pub struct NoopControlPlane;

impl ControlPlane for NoopControlPlane {
    open spec fn accepts(&self, payload: Seq<u8>) -> bool {
        true
    }

    fn apply_config(&self, payload: &[u8]) -> (r: Result<(), String>) {
        Ok(())
    }
}

} // verus!
