//! The library's error kinds.
use vstd::prelude::*;

verus! {

#[derive(Debug, Clone, Copy, PartialEq, Eq, Structural)]
pub enum AgentError {
    /// Loading, saving or serializing the configuration failed.
    Config,
    /// Reading or writing the drive marker failed.
    Identity,
    /// Enumerating, mounting, unmounting or formatting a device failed.
    Device,
    /// The device helper asked for authorization that was not given.
    AuthorizationRequired,
    /// The backup engine exited with an error.
    Engine,
    /// The passphrase does not open the repository.
    Auth,
    /// No backup sources are configured for the drive.
    NoSources,
    /// The operation was cancelled because its drive went away.
    Interrupted,
    /// No trusted drive has the given identity.
    NotFound,
    /// The label is taken, or the operation is already in progress.
    Conflict,
    /// The trusted drive is not connected or not mounted.
    NotConnected,
    /// The request itself is unusable (an empty passphrase, a mismatched confirmation).
    InvalidRequest,
}

} // verus!
