//! The narrow capability interface that batch-oriented callers consume, and
//! the error taxonomy those callers see.

use vstd::prelude::*;

use crate::channel::Channel;
use crate::channel::ParseError;
use crate::transport::TransportError;
use crate::uniden::ubc125xlt::UBC125XLTError;

verus! {

/// Everything one scanner operation can fail with: a malformed field in one
/// record, an unexpected structured reply, or a failure of the byte transport.
#[derive(Clone, Copy, PartialEq, Eq, Structural, Debug)]
pub enum ScannerError {
    /// One field of a wire channel record was malformed.
    Field(ParseError),
    /// The device's structured reply did not match the expected confirmation.
    Protocol(UBC125XLTError),
    /// The byte transport beneath the protocol failed.
    Transport(TransportError),
}

/// The interface used to communicate with a scanner from the rest of the
/// program; one implementation exists per supported device family.
pub trait Scanner {
    /// Download information on one particular channel (as requested by id)
    /// from the scanner.
    fn download_channel(&self, id: usize) -> Result<Channel, ScannerError>;

    /// Upload channel information for the requested channel to the scanner.
    fn upload_channel(&self, id: usize, channel: Channel) -> Result<(), ScannerError>;

    /// The number of channels supported by the scanner.
    fn number_of_channels(&self) -> usize;
}

} // verus!
