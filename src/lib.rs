//! Frame codec and device protocol of a serial-over-USB RFID reader.
//!
//! Outbound frames are `[start][len_hi][len_lo][payload..][crc_hi][crc_lo]`,
//! where the length field counts itself and the payload, and the CRC covers
//! everything after the start byte.
pub mod error;
pub mod buffer;
pub mod protocol;

pub use error::ReaderError;
pub use buffer::{checksum, Buffer};
pub use libftd2xx::FtStatus;
pub use libftd2xx::TimeoutError;
