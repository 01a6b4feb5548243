//! The ways in which a provisioning run can end without success.

use vstd::prelude::*;

verus! {

/// Why a provisioning run stopped. Every variant is final for the run: nothing
/// in this library retries.
#[derive(Clone, Copy, Debug, PartialEq, Eq, Structural)]
pub enum PipelineError {
    /// The host could not list its serial transports.
    EnumerationError,
    /// No serial transport is attached.
    NoDeviceFound,
    /// The operator's reply was not a number, or named no entry of the list.
    InvalidSelection,
    /// The selected transport is not attached over USB.
    NotUsbDevice,
    /// The catalog could not be retrieved.
    NetworkError,
    /// The catalog was retrieved but does not have the required shape.
    SchemaError,
    /// The requested version label is not in the device's list.
    UnknownVersion,
    /// A firmware segment could not be retrieved in full.
    DownloadError,
    /// The serial transport could not be opened.
    PortOpenError,
    /// The target did not answer the connect handshake.
    HandshakeError,
    /// Writing the segment with this index failed; earlier segments stay written.
    WriteError(usize),
}

/// How a run, or a stage of it, ended.
pub type Outcome = Result<(), PipelineError>;

} // verus!
