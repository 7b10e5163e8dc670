use vstd::prelude::*;

verus! {

/// What can go wrong while provisioning or benchmarking.
#[derive(Clone, Copy, Debug, PartialEq, Eq, Structural)]
pub enum InstallError {
    /// A download answered with a failure status or did not complete.
    Download,
    /// An archive was empty, malformed, or lacked an expected entry.
    Archive,
    /// A filesystem operation failed.
    Io,
    /// Text that should hold a number or a manifest did not.
    Parse,
    /// The child process could not be started.
    Launch,
    /// The server did not write its license file on the warm-up run.
    LicenseFileMissing,
}

} // verus!
