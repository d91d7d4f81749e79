use vstd::prelude::*;

verus! {

/// Declares `libftd2xx::FtStatus`, the status code reported by the FTDI
/// driver, so that errors can carry it; nothing inside it is read.
#[verifier::external_type_specification]
#[verifier::external_body]
pub struct ExFtStatus(libftd2xx::FtStatus);

/// Declares `libftd2xx::TimeoutError`, the FTDI driver's error for a transfer
/// that may also run out of time, so that errors can carry it; nothing inside
/// it is read.
#[verifier::external_type_specification]
#[verifier::external_body]
pub struct ExTimeoutError(libftd2xx::TimeoutError);

/// Everything that can go wrong while talking to the reader.
#[derive(Debug, Clone, Copy, PartialEq, Eq)]
pub enum ReaderError {
    /// The USB transport reported a problem.
    UsbError(libftd2xx::FtStatus),
    /// The USB transport failed or timed out while writing.
    TimeoutError(libftd2xx::TimeoutError),
    /// The checksum of a received frame does not match its contents.
    WrongChecksum,
    /// The response is too short or malformed for the operation.
    WrongResponse,
    /// The transport had nothing to read.
    EmptyResponse,
    /// A card identifier was not exactly eight bytes long.
    WrongCardId,
    /// The operation is not supported.
    NotImplemented,
    /// The reader reports that the card is absent.
    NoCard,
}

impl ReaderError {
    /// A human-readable description of the error; for a transport error,
    /// the driver's own description.
    pub fn to_string(&self) -> (r: String)
        ensures
            *self == ReaderError::WrongChecksum ==> r@ == "Wrong checksum in the response from the reader"@,
            *self == ReaderError::WrongResponse ==> r@ == "Response cointains unrecognizable data"@,
            *self == ReaderError::EmptyResponse ==> r@ == "Reader returned an empty response"@,
            *self == ReaderError::WrongCardId ==> r@ == "Wrong card id. Card id should contain exactly 8 bytes"@,
            *self == ReaderError::NotImplemented ==> r@ == "Not implemented yet"@,
            *self == ReaderError::NoCard ==> r@ == "No cards found"@,
    {
        match self {
            ReaderError::UsbError(e) => e.to_string(),
            ReaderError::TimeoutError(e) => e.to_string(),
            ReaderError::WrongChecksum => "Wrong checksum in the response from the reader".to_owned(),
            ReaderError::WrongResponse => "Response cointains unrecognizable data".to_owned(),
            ReaderError::EmptyResponse => "Reader returned an empty response".to_owned(),
            ReaderError::WrongCardId => "Wrong card id. Card id should contain exactly 8 bytes".to_owned(),
            ReaderError::NotImplemented => "Not implemented yet".to_owned(),
            ReaderError::NoCard => "No cards found".to_owned(),
        }
    }
}

impl From<libftd2xx::FtStatus> for ReaderError {
    fn from(e: libftd2xx::FtStatus) -> (r: Self)
        ensures
            r == ReaderError::UsbError(e),
    {
        ReaderError::UsbError(e)
    }
}

impl vstd::std_specs::convert::FromSpecImpl<libftd2xx::FtStatus> for ReaderError {
    open spec fn obeys_from_spec() -> bool {
        true
    }

    open spec fn from_spec(e: libftd2xx::FtStatus) -> Self {
        ReaderError::UsbError(e)
    }
}

impl From<libftd2xx::TimeoutError> for ReaderError {
    fn from(e: libftd2xx::TimeoutError) -> (r: Self)
        ensures
            r == ReaderError::TimeoutError(e),
    {
        ReaderError::TimeoutError(e)
    }
}

impl vstd::std_specs::convert::FromSpecImpl<libftd2xx::TimeoutError> for ReaderError {
    open spec fn obeys_from_spec() -> bool {
        true
    }

    open spec fn from_spec(e: libftd2xx::TimeoutError) -> Self {
        ReaderError::TimeoutError(e)
    }
}

} // verus!
