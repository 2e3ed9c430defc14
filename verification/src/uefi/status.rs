//! The status codes that EFI interfaces return.

use vstd::prelude::*;

use crate::uefi::Error;

verus! {

/// The `EFI_STATUS` type of the UEFI specification: a machine word whose
/// top bit tells errors from warnings and whose other bits hold the code.
pub struct EfiStatus(pub usize);

/// Represents an UEFI warning status code.
#[derive(Debug)]
pub enum StatusWarning {
    /// The string contained one or more characters that the device could not
    /// render and were skipped.
    UnknownGlyph,
    /// The handle was closed, but the file was not deleted.
    DeleteFailure,
    /// The handle was closed, but the data to the file was not flushed
    /// properly.
    WriteFailure,
    /// The resulting buffer was too small, and the data was truncated to the
    /// buffer size.
    BufferTooSmall,
    /// The data has not been updated within the timeframe set by local policy
    /// for this type of data.
    StaleData,
    /// The resulting buffer contains UEFI-compliant file system.
    FileSystem,
    /// The operation will be processed across a system reset.
    ResetRequired,
    /// Unknown `EFI_STATUS` warning code.
    Unknown(usize),
}

/// Represents an UEFI error status code.
#[derive(Debug)]
pub enum StatusError {
    /// The image failed to load.
    LoadError,
    /// A parameter was incorrect.
    InvalidParameter,
    /// The operation is not supported.
    Unsupported,
    /// The buffer was not the proper size for the request.
    BadBufferSize,
    /// The buffer is not large enough to hold the requested data. The required
    /// buffer size is returned in the appropriate parameter when this error
    /// occurs.
    BufferTooSmall,
    /// There is no data pending upon return.
    NotReady,
    /// The physical device reported an error while attempting the operation.
    DeviceError,
    /// The device cannot be written to.
    WriteProtected,
    /// A resource has run out.
    OutOfResources,
    /// An inconstancy was detected on the file system causing the operating to
    /// fail.
    VolumeCorrupted,
    /// There is no more space on the file system.
    VolumeFull,
    /// The device does not contain any medium to perform the operation.
    NoMedia,
    /// The medium in the device has changed since the last access.
    MediaChanged,
    /// The item was not found.
    NotFound,
    /// Access was denied.
    AccessDenied,
    /// The server was not found or did not respond to the request.
    NoResponse,
    /// A mapping to a device does not exist.
    NoMapping,
    /// The timeout time expired.
    Timeout,
    /// The protocol has not been started.
    NotStarted,
    /// The protocol has already been started.
    AlreadyStarted,
    /// The operation was aborted.
    Aborted,
    /// An ICMP error occurred during the network operation.
    IcmpError,
    /// A TFTP error occurred during the network operation.
    TftpError,
    /// A protocol error occurred during the network operation.
    ProtocolError,
    /// The function encountered an internal version that was incompatible with
    /// a version requested by the caller.
    IncompatibleVersion,
    /// The function was not performed due to a security violation.
    SecurityViolation,
    /// A CRC error was detected.
    CrcError,
    /// Beginning or end of media was reached.
    EndOfMedia,
    /// The end of the file was reached.
    EndOfFile,
    /// The language specified was invalid.
    InvalidLanguage,
    /// The security status of the data is unknown or compromised and the data
    /// must be updated or replaced to restore a valid security status.
    CompromisedData,
    /// There is an IP address conflict.
    IpAddressConflict,
    /// A HTTP error occurred during the network operation.
    HttpError,
    /// Unknown `EFI_STATUS` error code.
    Unknown(usize),
}

/// Represents the status code returned by an EFI interface.
#[derive(Debug)]
pub enum Status {
    /// Success status code.
    Success,
    /// Warning status code.
    Warning(StatusWarning),
    /// Error status code.
    Error(StatusError),
}

/// The value of the top bit of a machine word.
pub open spec fn error_flag() -> int {
    usize::MAX / 2 + 1
}

/// The top bit of the word is set.
pub open spec fn has_error_flag(word: usize) -> bool {
    word >= error_flag()
}

/// The word without its top bit.
pub open spec fn code_of(word: usize) -> usize {
    if has_error_flag(word) {
        (word - error_flag()) as usize
    } else {
        word
    }
}

/// The warning that a code stands for.
pub open spec fn warning_of(code: usize) -> StatusWarning {
    match code {
        1 => StatusWarning::UnknownGlyph,
        2 => StatusWarning::DeleteFailure,
        3 => StatusWarning::WriteFailure,
        4 => StatusWarning::BufferTooSmall,
        5 => StatusWarning::StaleData,
        6 => StatusWarning::FileSystem,
        7 => StatusWarning::ResetRequired,
        _ => StatusWarning::Unknown(code),
    }
}

/// The error that a code stands for. The codes 29 and 30 name no error.
pub open spec fn error_of(code: usize) -> StatusError {
    match code {
        1 => StatusError::LoadError,
        2 => StatusError::InvalidParameter,
        3 => StatusError::Unsupported,
        4 => StatusError::BadBufferSize,
        5 => StatusError::BufferTooSmall,
        6 => StatusError::NotReady,
        7 => StatusError::DeviceError,
        8 => StatusError::WriteProtected,
        9 => StatusError::OutOfResources,
        10 => StatusError::VolumeCorrupted,
        11 => StatusError::VolumeFull,
        12 => StatusError::NoMedia,
        13 => StatusError::MediaChanged,
        14 => StatusError::NotFound,
        15 => StatusError::AccessDenied,
        16 => StatusError::NoResponse,
        17 => StatusError::NoMapping,
        18 => StatusError::Timeout,
        19 => StatusError::NotStarted,
        20 => StatusError::AlreadyStarted,
        21 => StatusError::Aborted,
        22 => StatusError::IcmpError,
        23 => StatusError::TftpError,
        24 => StatusError::ProtocolError,
        25 => StatusError::IncompatibleVersion,
        26 => StatusError::SecurityViolation,
        27 => StatusError::CrcError,
        28 => StatusError::EndOfMedia,
        31 => StatusError::EndOfFile,
        32 => StatusError::InvalidLanguage,
        33 => StatusError::CompromisedData,
        34 => StatusError::IpAddressConflict,
        35 => StatusError::HttpError,
        _ => StatusError::Unknown(code),
    }
}

/// What a status word stands for: zero is success; any other word with
/// the top bit clear is a warning, whose code is the word; a word with the
/// top bit set is an error, whose code is the word without that bit.
pub open spec fn decode(word: usize) -> Status {
    if word == 0 {
        Status::Success
    } else if has_error_flag(word) {
        Status::Error(error_of(code_of(word)))
    } else {
        Status::Warning(warning_of(word))
    }
}

/// Tells whether the top bit of `word` is set, and gives the word without
/// that bit.
fn split_word(word: usize) -> (parts: (bool, usize))
    ensures
        parts.0 == has_error_flag(word),
        parts.1 == code_of(word),
{
    // The top bit is worth one more than half of the largest word.
    let flag = word > usize::MAX / 2;
    let code = if flag {
        word - usize::MAX / 2 - 1
    } else {
        word
    };
    (flag, code)
}

impl TryFrom<EfiStatus> for StatusWarning {
    type Error = Error;

    fn try_from(status: EfiStatus) -> (res: Result<Self, Error>) {
        let (flag, _) = split_word(status.0);
        // Code 0 is reserved for success and warnings must have the highest
        // bit clear.
        if status.0 == 0 || flag {
            return Err(Error::InvalidStatusConversion);
        }
        match status.0 {
            1 => Ok(StatusWarning::UnknownGlyph),
            2 => Ok(StatusWarning::DeleteFailure),
            3 => Ok(StatusWarning::WriteFailure),
            4 => Ok(StatusWarning::BufferTooSmall),
            5 => Ok(StatusWarning::StaleData),
            6 => Ok(StatusWarning::FileSystem),
            7 => Ok(StatusWarning::ResetRequired),
            code => Ok(StatusWarning::Unknown(code)),
        }
    }
}

impl vstd::std_specs::convert::TryFromSpecImpl<EfiStatus> for StatusWarning {
    open spec fn obeys_try_from_spec() -> bool {
        true
    }

    open spec fn try_from_spec(status: EfiStatus) -> Result<Self, Error> {
        if status.0 == 0 || has_error_flag(status.0) {
            Err(Error::InvalidStatusConversion)
        } else {
            Ok(warning_of(status.0))
        }
    }
}

impl TryFrom<EfiStatus> for StatusError {
    type Error = Error;

    fn try_from(status: EfiStatus) -> (res: Result<Self, Error>) {
        let (flag, code) = split_word(status.0);
        // Code 0 is reserved for success and errors must have the highest bit
        // set.
        if status.0 == 0 || !flag {
            return Err(Error::InvalidStatusConversion);
        }
        let error = match code {
            1 => StatusError::LoadError,
            2 => StatusError::InvalidParameter,
            3 => StatusError::Unsupported,
            4 => StatusError::BadBufferSize,
            5 => StatusError::BufferTooSmall,
            6 => StatusError::NotReady,
            7 => StatusError::DeviceError,
            8 => StatusError::WriteProtected,
            9 => StatusError::OutOfResources,
            10 => StatusError::VolumeCorrupted,
            11 => StatusError::VolumeFull,
            12 => StatusError::NoMedia,
            13 => StatusError::MediaChanged,
            14 => StatusError::NotFound,
            15 => StatusError::AccessDenied,
            16 => StatusError::NoResponse,
            17 => StatusError::NoMapping,
            18 => StatusError::Timeout,
            19 => StatusError::NotStarted,
            20 => StatusError::AlreadyStarted,
            21 => StatusError::Aborted,
            22 => StatusError::IcmpError,
            23 => StatusError::TftpError,
            24 => StatusError::ProtocolError,
            25 => StatusError::IncompatibleVersion,
            26 => StatusError::SecurityViolation,
            27 => StatusError::CrcError,
            28 => StatusError::EndOfMedia,
            31 => StatusError::EndOfFile,
            32 => StatusError::InvalidLanguage,
            33 => StatusError::CompromisedData,
            34 => StatusError::IpAddressConflict,
            35 => StatusError::HttpError,
            _ => StatusError::Unknown(code),
        };
        Ok(error)
    }
}

impl vstd::std_specs::convert::TryFromSpecImpl<EfiStatus> for StatusError {
    open spec fn obeys_try_from_spec() -> bool {
        true
    }

    open spec fn try_from_spec(status: EfiStatus) -> Result<Self, Error> {
        if status.0 == 0 || !has_error_flag(status.0) {
            Err(Error::InvalidStatusConversion)
        } else {
            Ok(error_of(code_of(status.0)))
        }
    }
}

impl From<EfiStatus> for Status {
    fn from(status: EfiStatus) -> (ret: Self) {
        let (flag, _) = split_word(status.0);
        if status.0 == 0 {
            Status::Success
        } else if !flag {
            Status::Warning(StatusWarning::try_from(status).unwrap())
        } else {
            Status::Error(StatusError::try_from(status).unwrap())
        }
    }
}

impl vstd::std_specs::convert::FromSpecImpl<EfiStatus> for Status {
    open spec fn obeys_from_spec() -> bool {
        true
    }

    open spec fn from_spec(status: EfiStatus) -> Self {
        decode(status.0)
    }
}

} // verus!
