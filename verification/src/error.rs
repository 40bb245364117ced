//! The kinds of failure that the control plane reports.

use vstd::prelude::*;

verus! {

/// Why an operation failed.
#[derive(Clone, Copy, Debug, PartialEq, Eq, Structural)]
pub enum Failure {
    /// The shared secret was wrong. The only failure that ends a session.
    Auth,
    /// No app has the id that was asked for.
    NotFound,
    /// The remote is in no recognised form.
    InvalidRepo,
    /// An external tool reported failure.
    ExternalTool,
    /// A command frame could not be decoded.
    Parse,
    /// The file system refused an access.
    Io,
}

} // verus!
