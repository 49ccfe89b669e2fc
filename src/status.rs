use vstd::prelude::*;

verus! {

/// Status codes returned by the bridge driver.
#[allow(non_camel_case_types)]
#[derive(Clone, Copy, Debug, PartialEq, Eq, Structural)]
pub enum FtStatus {
    FT_OK,
    FT_INVALID_HANDLE,
    FT_DEVICE_NOT_FOUND,
    FT_DEVICE_NOT_OPENED,
    FT_IO_ERROR,
    FT_INSUFFICIENT_RESOURCES,
    FT_INVALID_PARAMETER,
    FT_INVALID_BAUD_RATE,
    FT_DEVICE_NOT_OPENED_FOR_ERASE,
    FT_DEVICE_NOT_OPENED_FOR_WRITE,
    FT_FAILED_TO_WRITE_DEVICE,
    FT_EEPROM_READ_FAILED,
    FT_EEPROM_WRITE_FAILED,
    FT_EEPROM_ERASE_FAILED,
    FT_EEPROM_NOT_PRESENT,
    FT_EEPROM_NOT_PROGRAMMED,
    FT_INVALID_ARGS,
    FT_NOT_SUPPORTED,
    FT_OTHER_ERROR,
    FT_DEVICE_LIST_NOT_READY,
}

/// The numeric code of each driver status.
pub open spec fn status_code(s: FtStatus) -> u32 {
    match s {
        FtStatus::FT_OK => 0,
        FtStatus::FT_INVALID_HANDLE => 1,
        FtStatus::FT_DEVICE_NOT_FOUND => 2,
        FtStatus::FT_DEVICE_NOT_OPENED => 3,
        FtStatus::FT_IO_ERROR => 4,
        FtStatus::FT_INSUFFICIENT_RESOURCES => 5,
        FtStatus::FT_INVALID_PARAMETER => 6,
        FtStatus::FT_INVALID_BAUD_RATE => 7,
        FtStatus::FT_DEVICE_NOT_OPENED_FOR_ERASE => 8,
        FtStatus::FT_DEVICE_NOT_OPENED_FOR_WRITE => 9,
        FtStatus::FT_FAILED_TO_WRITE_DEVICE => 10,
        FtStatus::FT_EEPROM_READ_FAILED => 11,
        FtStatus::FT_EEPROM_WRITE_FAILED => 12,
        FtStatus::FT_EEPROM_ERASE_FAILED => 13,
        FtStatus::FT_EEPROM_NOT_PRESENT => 14,
        FtStatus::FT_EEPROM_NOT_PROGRAMMED => 15,
        FtStatus::FT_INVALID_ARGS => 16,
        FtStatus::FT_NOT_SUPPORTED => 17,
        FtStatus::FT_OTHER_ERROR => 18,
        FtStatus::FT_DEVICE_LIST_NOT_READY => 19,
    }
}

impl FtStatus {
    pub fn code(&self) -> (r: u32)
        ensures
            r == status_code(*self),
    {
        match *self {
            FtStatus::FT_OK => 0,
            FtStatus::FT_INVALID_HANDLE => 1,
            FtStatus::FT_DEVICE_NOT_FOUND => 2,
            FtStatus::FT_DEVICE_NOT_OPENED => 3,
            FtStatus::FT_IO_ERROR => 4,
            FtStatus::FT_INSUFFICIENT_RESOURCES => 5,
            FtStatus::FT_INVALID_PARAMETER => 6,
            FtStatus::FT_INVALID_BAUD_RATE => 7,
            FtStatus::FT_DEVICE_NOT_OPENED_FOR_ERASE => 8,
            FtStatus::FT_DEVICE_NOT_OPENED_FOR_WRITE => 9,
            FtStatus::FT_FAILED_TO_WRITE_DEVICE => 10,
            FtStatus::FT_EEPROM_READ_FAILED => 11,
            FtStatus::FT_EEPROM_WRITE_FAILED => 12,
            FtStatus::FT_EEPROM_ERASE_FAILED => 13,
            FtStatus::FT_EEPROM_NOT_PRESENT => 14,
            FtStatus::FT_EEPROM_NOT_PROGRAMMED => 15,
            FtStatus::FT_INVALID_ARGS => 16,
            FtStatus::FT_NOT_SUPPORTED => 17,
            FtStatus::FT_OTHER_ERROR => 18,
            FtStatus::FT_DEVICE_LIST_NOT_READY => 19,
        }
    }
}

/// Errors of the bridge and of the driver that reaches it.
#[derive(Clone, Copy, Debug, PartialEq, Eq, Structural)]
pub enum Error {
    NoError,
    InvalidHandle,
    DeviceNotFound,
    DeviceNotOpened,
    IoError,
    InsufficientResources,
    InvalidParameter,
    InvalidBaudRate,
    DeviceNotOpenedForErase,
    DeviceNotOpenedForWrite,
    FailedToWriteDevice,
    EepromReadFailed,
    EepromWriteFailed,
    EepromEraseFailed,
    EepromNotPresent,
    EepromNotProgrammed,
    InvalidArgs,
    NotSupported,
    OtherError,
    DeviceListNotReady,
    NoComPortAssigned,
    /// The provided string contained at least one NULL byte
    StringContainsNullByte,
    /// The bridge is not in the bit mode that the operation needs
    UnexpectedBitMode,
    UnknownError(u32),
}

/// The error that a driver status code stands for.
pub open spec fn error_of_status(code: u32) -> Error {
    if code == 0 { Error::NoError }
    else if code == 1 { Error::InvalidHandle }
    else if code == 2 { Error::DeviceNotFound }
    else if code == 3 { Error::DeviceNotOpened }
    else if code == 4 { Error::IoError }
    else if code == 5 { Error::InsufficientResources }
    else if code == 6 { Error::InvalidParameter }
    else if code == 7 { Error::InvalidBaudRate }
    else if code == 8 { Error::DeviceNotOpenedForErase }
    else if code == 9 { Error::DeviceNotOpenedForWrite }
    else if code == 10 { Error::FailedToWriteDevice }
    else if code == 11 { Error::EepromReadFailed }
    else if code == 12 { Error::EepromWriteFailed }
    else if code == 13 { Error::EepromEraseFailed }
    else if code == 14 { Error::EepromNotPresent }
    else if code == 15 { Error::EepromNotProgrammed }
    else if code == 16 { Error::InvalidArgs }
    else if code == 17 { Error::NotSupported }
    else if code == 18 { Error::OtherError }
    else if code == 19 { Error::DeviceListNotReady }
    else { Error::UnknownError(code) }
}

impl Error {
    /// The error for a driver status code; code 0 is `NoError`.
    pub fn from_status(code: u32) -> (r: Error)
        ensures
            r == error_of_status(code),
    {
        match code {
            0 => Error::NoError,
            1 => Error::InvalidHandle,
            2 => Error::DeviceNotFound,
            3 => Error::DeviceNotOpened,
            4 => Error::IoError,
            5 => Error::InsufficientResources,
            6 => Error::InvalidParameter,
            7 => Error::InvalidBaudRate,
            8 => Error::DeviceNotOpenedForErase,
            9 => Error::DeviceNotOpenedForWrite,
            10 => Error::FailedToWriteDevice,
            11 => Error::EepromReadFailed,
            12 => Error::EepromWriteFailed,
            13 => Error::EepromEraseFailed,
            14 => Error::EepromNotPresent,
            15 => Error::EepromNotProgrammed,
            16 => Error::InvalidArgs,
            17 => Error::NotSupported,
            18 => Error::OtherError,
            19 => Error::DeviceListNotReady,
            x => Error::UnknownError(x),
        }
    }

    /// A driver call succeeded exactly when its status is `NoError`.
    pub fn check(code: u32) -> (r: Result<(), Error>)
        ensures
            r is Ok <==> code == 0,
            r matches Err(e) ==> e == error_of_status(code),
    {
        let e = Error::from_status(code);
        if e == Error::NoError {
            Ok(())
        } else {
            Err(e)
        }
    }
}

impl From<u32> for Error {
    fn from(code: u32) -> (r: Error) {
        Error::from_status(code)
    }
}

impl vstd::std_specs::convert::FromSpecImpl<u32> for Error {
    open spec fn obeys_from_spec() -> bool {
        true
    }

    open spec fn from_spec(code: u32) -> Error {
        error_of_status(code)
    }
}

} // verus!
