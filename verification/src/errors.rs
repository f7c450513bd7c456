//! The error taxonomy shared by every operation of the crate.

use vstd::prelude::*;

verus! {

/// Why an operation could not be carried out.
///
/// Operations either succeed with a value or fail with exactly one of these
/// kinds; there is no partial-success shape.
#[derive(Debug, PartialEq, Eq)]
pub enum Error {
    /// The capability is absent on this backend or platform.
    NotSupported(String),
    /// An unknown stable id, or a characteristic/descriptor path that is not
    /// in the topology cache.
    DeviceNotFound,
    /// The operation requires an active link and the peripheral has none.
    NotConnected,
    /// An opaque backend failure, with a diagnostic text.
    RuntimeError(String),
    /// The event stream was torn down under an active subscriber.
    ChannelClosed,
}

} // verus!
