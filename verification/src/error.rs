//! The error kinds of this crate.

use vstd::prelude::*;

verus! {

/// Everything that can go wrong when talking to a Stream Deck device.
///
/// Transport and encoder failures carry the underlying failure as a message
/// string, since the raw HID transport lives outside this crate.
#[derive(Debug)]
pub enum StreamDeckError {
    /// The vendor/product ids do not belong to any known model.
    NotAStreamDeckDevice,
    /// Enumeration found no known device at all.
    NoDeviceFound,
    /// The HID transport reported a failure.
    HidError(String),
    /// An uploaded image does not have the model's required pixel size;
    /// carries the expected (width, height).
    DimensionMismatch(u32, u32),
    /// The image encoder reported a failure.
    ImageEncodingError(String),
    /// The transport wrote fewer bytes than requested.
    IncorrectWriteLengthError,
}

/// Judge the outcome of one packet write: a write is good exactly when the
/// transport wrote as many bytes as were handed to it; anything else is an
/// `IncorrectWriteLengthError` and ends the upload.
pub fn check_write_length(requested: usize, written: usize) -> (r: Result<(), StreamDeckError>)
    ensures
        r is Ok <==> written == requested,
        r is Err ==> r matches Err(StreamDeckError::IncorrectWriteLengthError),
{
    if written == requested {
        Ok(())
    } else {
        Err(StreamDeckError::IncorrectWriteLengthError)
    }
}

} // verus!
