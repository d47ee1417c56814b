//! The engine's status codes.

use vstd::prelude::*;

verus! {

/// A status of the sox engine.
///
/// | variant                 | code |
/// |-------------------------|------|
/// | `Success`               | 0    |
/// | `EndOfFile`             | -1   |
/// | `InvalidAudioHeader`    | 2000 |
/// | `UnsupportedDataFormat` | 2001 |
/// | `CannotAllocMemory`     | 2002 |
/// | `OperationNotPermitted` | 2003 |
/// | `OperationNotSupported` | 2004 |
/// | `InvalidArgument`       | 2005 |
///
/// The engine uses -1 both for the end of a stream and for a failure that it
/// does not name.
#[derive(Clone, Copy, Debug, PartialEq, Eq, Structural)]
pub enum SoxErrorT {
    Success,
    EndOfFile,
    InvalidAudioHeader,
    UnsupportedDataFormat,
    CannotAllocMemory,
    OperationNotPermitted,
    OperationNotSupported,
    InvalidArgument,
}

impl SoxErrorT {
    /// The engine's number for this status.
    pub open spec fn status_code(self) -> int {
        match self {
            SoxErrorT::Success => 0,
            SoxErrorT::EndOfFile => -1,
            SoxErrorT::InvalidAudioHeader => 2000,
            SoxErrorT::UnsupportedDataFormat => 2001,
            SoxErrorT::CannotAllocMemory => 2002,
            SoxErrorT::OperationNotPermitted => 2003,
            SoxErrorT::OperationNotSupported => 2004,
            SoxErrorT::InvalidArgument => 2005,
        }
    }

    /// Whether this status names a failure: every status but `Success` and
    /// `EndOfFile`, which ends a stream.
    pub open spec fn names_failure(self) -> bool {
        self != SoxErrorT::Success && self != SoxErrorT::EndOfFile
    }

    /// The status that `code` stands for, if it stands for one.
    pub open spec fn of_code(code: int) -> Option<SoxErrorT> {
        if code == 0 {
            Some(SoxErrorT::Success)
        } else if code == -1 {
            Some(SoxErrorT::EndOfFile)
        } else if code == 2000 {
            Some(SoxErrorT::InvalidAudioHeader)
        } else if code == 2001 {
            Some(SoxErrorT::UnsupportedDataFormat)
        } else if code == 2002 {
            Some(SoxErrorT::CannotAllocMemory)
        } else if code == 2003 {
            Some(SoxErrorT::OperationNotPermitted)
        } else if code == 2004 {
            Some(SoxErrorT::OperationNotSupported)
        } else if code == 2005 {
            Some(SoxErrorT::InvalidArgument)
        } else {
            None
        }
    }

    /// The engine's number for this status.
    pub fn code(self) -> (c: i32)
        ensures
            c == self.status_code(),
    {
        match self {
            SoxErrorT::Success => 0,
            SoxErrorT::EndOfFile => -1,
            SoxErrorT::InvalidAudioHeader => 2000,
            SoxErrorT::UnsupportedDataFormat => 2001,
            SoxErrorT::CannotAllocMemory => 2002,
            SoxErrorT::OperationNotPermitted => 2003,
            SoxErrorT::OperationNotSupported => 2004,
            SoxErrorT::InvalidArgument => 2005,
        }
    }

    /// The status with the number `code`; `None` where the engine has no
    /// status with that number.
    pub fn from_code(code: i32) -> (status: Option<SoxErrorT>)
        ensures
            status == SoxErrorT::of_code(code as int),
    {
        if code == 0 {
            Some(SoxErrorT::Success)
        } else if code == -1 {
            Some(SoxErrorT::EndOfFile)
        } else if code == 2000 {
            Some(SoxErrorT::InvalidAudioHeader)
        } else if code == 2001 {
            Some(SoxErrorT::UnsupportedDataFormat)
        } else if code == 2002 {
            Some(SoxErrorT::CannotAllocMemory)
        } else if code == 2003 {
            Some(SoxErrorT::OperationNotPermitted)
        } else if code == 2004 {
            Some(SoxErrorT::OperationNotSupported)
        } else if code == 2005 {
            Some(SoxErrorT::InvalidArgument)
        } else {
            None
        }
    }

    /// Whether this status names a failure.
    pub fn is_failure(self) -> (failure: bool)
        ensures
            failure == self.names_failure(),
    {
        match self {
            SoxErrorT::Success => false,
            SoxErrorT::EndOfFile => false,
            _ => true,
        }
    }
}

/// A status is found again from its number, and a number that stands for a
/// status is the number of that status: `of_code` is the inverse of
/// `status_code`.
pub proof fn lemma_code_round_trip(status: SoxErrorT, code: int)
    ensures
        SoxErrorT::of_code(status.status_code()) == Some(status),
        SoxErrorT::of_code(code) == Some(status) <==> status.status_code() == code,
{
}

/// No two statuses share a number.
pub proof fn lemma_code_injective(a: SoxErrorT, b: SoxErrorT)
    requires
        a.status_code() == b.status_code(),
    ensures
        a == b,
{
}

} // verus!
