//! The boundary with the host execution environment: the two transport paths
//! a dispensation can be sent through, and the status decoding of the
//! extension path.
//!
//! The host (or a test double) implements the traits; nothing is assumed of
//! what a transport answers, so the dispatch logic is verified for every
//! possible outcome.

use vstd::prelude::*;

verus! {

/// The failure the extension transport can report.
#[derive(Debug, Clone, Copy, PartialEq, Eq)]
pub enum FetchAssetError {
    FetchAssetFailed,
}

impl FetchAssetError {
    /// Decodes the status word of the extension transport: `0` is success and
    /// `1` is failure. Any other value is a contract violation by the host
    /// extension; a caller must treat it as fatal and abort before calling
    /// here, so those inputs are excluded.
    pub fn from_status_code(status_code: u32) -> (r: Result<(), FetchAssetError>)
        requires
            status_code == 0 || status_code == 1,
        ensures
            status_code == 0 ==> r == Ok::<(), FetchAssetError>(()),
            status_code == 1 ==> r == Err::<(), FetchAssetError>(
                FetchAssetError::FetchAssetFailed,
            ),
    {
        if status_code == 0 {
            Ok(())
        } else {
            Err(FetchAssetError::FetchAssetFailed)
        }
    }
}

/// The failure the direct runtime-call transport can report. The service
/// never reads anything out of it beyond the fact that the call failed.
#[derive(Debug, Clone, Copy, PartialEq, Eq)]
pub enum HostError {
    CallFailed,
}

/// The direct transport path: a privileged host call that runs an encoded
/// runtime instruction on the service's behalf. Nothing is promised of the
/// answer.
pub trait CallRuntime {
    fn submit_runtime_call(&mut self, instruction: &[u8]) -> Result<(), HostError>;
}

/// The extension transport path: a host-provided capability that encodes and
/// dispatches the transfer itself and reports a status word. An implementor
/// decodes the raw status with `FetchAssetError::from_status_code`, aborting
/// on an undefined status before it reaches this interface. Nothing is
/// promised of the answer.
pub trait FetchAsset {
    fn transfer_token(&mut self, token_id: u32, amount: u128) -> Result<(), FetchAssetError>;
}

} // verus!
