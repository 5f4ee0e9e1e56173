//! Whose fault a failure is.

use vstd::prelude::*;

verus! {

/// The classes of failure. They are answered differently: a fault of the
/// client with the reason, a thing not found as such, a fault of the server
/// without detail.
#[derive(Clone, Copy, Debug, PartialEq, Eq, Structural)]
pub enum Fault {
    /// The request is at fault: a refused file type, too large an upload, a
    /// malformed or missing address, missing or wrong credentials, no
    /// session.
    Client,
    /// The request names a code or file that is not there.
    NotFound,
    /// The service is at fault: storage failed, or the codes ran out.
    Server,
}

} // verus!
