//! Result codes of the host and the closed enumeration they map to.

use vstd::prelude::*;

verus! {

/// The kinds of failure that the host reports or that the marshalling layer
/// detects. Each kind has one numeric code; a code that belongs to no other
/// kind reads as [`ApiError::Unhandled`].
#[derive(Clone, Copy, Debug, PartialEq, Eq, Structural)]
pub enum ApiError {
    /// An optional value was empty where one was needed.
    NoValue,
    /// No argument was supplied at the requested index.
    MissingArgument,
    /// An argument was supplied but does not decode to the expected type.
    InvalidArgument,
    /// Bytes handed over by the host do not decode.
    Deserialize,
    /// The host rejected a reference as unknown or forged.
    InvalidReference,
    /// The host refused to replace the program under a reference.
    UpgradeContractAtURef,
    /// The capability presented lacks the rights that the operation needs.
    NoAccessRights,
    /// The input ended before the value was complete.
    EarlyEndOfStream,
    /// The input holds a tag or a text that is not well formed.
    Formatting,
    /// Bytes were left after the value was decoded.
    LeftOverBytes,
    /// A length does not fit the length prefix of the encoding.
    OutOfMemory,
    /// No key is stored under the requested name.
    MissingKey,
    /// The receive buffer is smaller than what the host has to deliver.
    BufferTooSmall,
    /// The host holds no pending result to read.
    HostBufferEmpty,
    /// The host already holds a pending result.
    HostBufferFull,
    /// A value carries another type than the one asked for.
    CLTypeMismatch,
    /// Any code that names none of the kinds above.
    Unhandled,
}

/// The status by which the host reports success.
pub const STATUS_OK: i32 = 0;

/// The numeric code of each kind.
pub open spec fn code_of(e: ApiError) -> u32 {
    match e {
        ApiError::NoValue => 1,
        ApiError::MissingArgument => 2,
        ApiError::InvalidArgument => 3,
        ApiError::Deserialize => 4,
        ApiError::InvalidReference => 5,
        ApiError::UpgradeContractAtURef => 6,
        ApiError::NoAccessRights => 7,
        ApiError::EarlyEndOfStream => 8,
        ApiError::Formatting => 9,
        ApiError::LeftOverBytes => 10,
        ApiError::OutOfMemory => 11,
        ApiError::MissingKey => 12,
        ApiError::BufferTooSmall => 13,
        ApiError::HostBufferEmpty => 14,
        ApiError::HostBufferFull => 15,
        ApiError::CLTypeMismatch => 16,
        ApiError::Unhandled => 17,
    }
}

/// The kind that a non-zero status stands for. Total: every status has a kind.
pub open spec fn kind_of(status: i32) -> ApiError {
    if status == 1 {
        ApiError::NoValue
    } else if status == 2 {
        ApiError::MissingArgument
    } else if status == 3 {
        ApiError::InvalidArgument
    } else if status == 4 {
        ApiError::Deserialize
    } else if status == 5 {
        ApiError::InvalidReference
    } else if status == 6 {
        ApiError::UpgradeContractAtURef
    } else if status == 7 {
        ApiError::NoAccessRights
    } else if status == 8 {
        ApiError::EarlyEndOfStream
    } else if status == 9 {
        ApiError::Formatting
    } else if status == 10 {
        ApiError::LeftOverBytes
    } else if status == 11 {
        ApiError::OutOfMemory
    } else if status == 12 {
        ApiError::MissingKey
    } else if status == 13 {
        ApiError::BufferTooSmall
    } else if status == 14 {
        ApiError::HostBufferEmpty
    } else if status == 15 {
        ApiError::HostBufferFull
    } else if status == 16 {
        ApiError::CLTypeMismatch
    } else {
        ApiError::Unhandled
    }
}

/// What a status means: success for zero, otherwise the kind it stands for.
pub open spec fn outcome_of(status: i32) -> Result<(), ApiError> {
    if status == STATUS_OK {
        Ok(())
    } else {
        Err(kind_of(status))
    }
}

/// A value that can serve as the reason of a revert.
pub trait Reason {
    /// The number that reaches the host.
    spec fn reason(&self) -> u32;

    fn code(&self) -> (c: u32)
        ensures
            c == self.reason(),
    ;
}

impl Reason for ApiError {
    open spec fn reason(&self) -> u32 {
        code_of(*self)
    }

    fn code(&self) -> (c: u32) {
        match self {
            ApiError::NoValue => 1,
            ApiError::MissingArgument => 2,
            ApiError::InvalidArgument => 3,
            ApiError::Deserialize => 4,
            ApiError::InvalidReference => 5,
            ApiError::UpgradeContractAtURef => 6,
            ApiError::NoAccessRights => 7,
            ApiError::EarlyEndOfStream => 8,
            ApiError::Formatting => 9,
            ApiError::LeftOverBytes => 10,
            ApiError::OutOfMemory => 11,
            ApiError::MissingKey => 12,
            ApiError::BufferTooSmall => 13,
            ApiError::HostBufferEmpty => 14,
            ApiError::HostBufferFull => 15,
            ApiError::CLTypeMismatch => 16,
        ApiError::Unhandled => 17,
        }
    }
}

impl Reason for u32 {
    open spec fn reason(&self) -> u32 {
        *self
    }

    fn code(&self) -> (c: u32) {
        *self
    }
}

impl ApiError {
    /// The kind that a status stands for, whatever the status.
    pub fn from_status(status: i32) -> (e: ApiError)
        ensures
            e == kind_of(status),
    {
        if status == 1 {
            ApiError::NoValue
        } else if status == 2 {
            ApiError::MissingArgument
        } else if status == 3 {
            ApiError::InvalidArgument
        } else if status == 4 {
            ApiError::Deserialize
        } else if status == 5 {
            ApiError::InvalidReference
        } else if status == 6 {
            ApiError::UpgradeContractAtURef
        } else if status == 7 {
            ApiError::NoAccessRights
        } else if status == 8 {
            ApiError::EarlyEndOfStream
        } else if status == 9 {
            ApiError::Formatting
        } else if status == 10 {
            ApiError::LeftOverBytes
        } else if status == 11 {
            ApiError::OutOfMemory
        } else if status == 12 {
            ApiError::MissingKey
        } else if status == 13 {
            ApiError::BufferTooSmall
        } else if status == 14 {
            ApiError::HostBufferEmpty
        } else if status == 15 {
            ApiError::HostBufferFull
        } else if status == 16 {
            ApiError::CLTypeMismatch
        } else {
            ApiError::Unhandled
        }
    }

    /// The status by which the host reports this kind.
    pub fn status(&self) -> (s: i32)
        ensures
            s == code_of(*self) as i32,
            s == code_of(*self),
            s != STATUS_OK,
    {
        match self {
            ApiError::NoValue => 1,
            ApiError::MissingArgument => 2,
            ApiError::InvalidArgument => 3,
            ApiError::Deserialize => 4,
            ApiError::InvalidReference => 5,
            ApiError::UpgradeContractAtURef => 6,
            ApiError::NoAccessRights => 7,
            ApiError::EarlyEndOfStream => 8,
            ApiError::Formatting => 9,
            ApiError::LeftOverBytes => 10,
            ApiError::OutOfMemory => 11,
            ApiError::MissingKey => 12,
            ApiError::BufferTooSmall => 13,
            ApiError::HostBufferEmpty => 14,
            ApiError::HostBufferFull => 15,
            ApiError::CLTypeMismatch => 16,
        ApiError::Unhandled => 17,
        }
    }
}

/// Reads a status returned by the host: zero is success, anything else is the
/// kind that the status stands for.
pub fn result_from(status: i32) -> (r: Result<(), ApiError>)
    ensures
        r == outcome_of(status),
{
    if status == STATUS_OK {
        Ok(())
    } else {
        Err(ApiError::from_status(status))
    }
}

/// Every kind is found again from its own code, and no kind has the code of
/// success.
pub proof fn lemma_code_round_trip(e: ApiError)
    ensures
        code_of(e) != 0,
        kind_of(code_of(e) as i32) == e,
        outcome_of(code_of(e) as i32) == Err::<(), ApiError>(e),
{
}

/// A status is success exactly when it is zero; every other status has a kind.
pub proof fn lemma_status_total(status: i32)
    ensures
        outcome_of(status) is Ok <==> status == 0,
        status != 0 ==> outcome_of(status) == Err::<(), ApiError>(kind_of(status)),
{
}

} // verus!
