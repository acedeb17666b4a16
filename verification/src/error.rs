//! Status codes and the error type shared by every layer.

use vstd::prelude::*;
use vstd::string::*;

verus! {

/// The closed set of status codes a response can carry.
#[allow(non_camel_case_types)]
#[derive(Clone, Copy, Debug, PartialEq, Eq, Structural)]
pub enum Code {
    OK,
    CANCELLED,
    UNKNOWN,
    INVALID_ARGUMENT,
    DEADLINE_EXCEEDED,
    NOT_FOUND,
    ALREADY_EXISTS,
    PERMISSION_DENIED,
    RESOURCE_EXHAUSTED,
    FAILED_PRECONDITION,
    ABORTED,
    OUT_OF_RANGE,
    UNIMPLEMENTED,
    INTERNAL,
    UNAVAILABLE,
    DATA_LOSS,
    UNAUTHENTICATED,
}

/// The number that stands for `code` on the wire.
pub open spec fn code_number(code: Code) -> int {
    match code {
        Code::OK => 0,
        Code::CANCELLED => 1,
        Code::UNKNOWN => 2,
        Code::INVALID_ARGUMENT => 3,
        Code::DEADLINE_EXCEEDED => 4,
        Code::NOT_FOUND => 5,
        Code::ALREADY_EXISTS => 6,
        Code::PERMISSION_DENIED => 7,
        Code::RESOURCE_EXHAUSTED => 8,
        Code::FAILED_PRECONDITION => 9,
        Code::ABORTED => 10,
        Code::OUT_OF_RANGE => 11,
        Code::UNIMPLEMENTED => 12,
        Code::INTERNAL => 13,
        Code::UNAVAILABLE => 14,
        Code::DATA_LOSS => 15,
        Code::UNAUTHENTICATED => 16,
    }
}

/// The code that `n` stands for, if it stands for one.
pub open spec fn code_of_number(n: int) -> Option<Code> {
    if n == 0 {
        Some(Code::OK)
    } else if n == 1 {
        Some(Code::CANCELLED)
    } else if n == 2 {
        Some(Code::UNKNOWN)
    } else if n == 3 {
        Some(Code::INVALID_ARGUMENT)
    } else if n == 4 {
        Some(Code::DEADLINE_EXCEEDED)
    } else if n == 5 {
        Some(Code::NOT_FOUND)
    } else if n == 6 {
        Some(Code::ALREADY_EXISTS)
    } else if n == 7 {
        Some(Code::PERMISSION_DENIED)
    } else if n == 8 {
        Some(Code::RESOURCE_EXHAUSTED)
    } else if n == 9 {
        Some(Code::FAILED_PRECONDITION)
    } else if n == 10 {
        Some(Code::ABORTED)
    } else if n == 11 {
        Some(Code::OUT_OF_RANGE)
    } else if n == 12 {
        Some(Code::UNIMPLEMENTED)
    } else if n == 13 {
        Some(Code::INTERNAL)
    } else if n == 14 {
        Some(Code::UNAVAILABLE)
    } else if n == 15 {
        Some(Code::DATA_LOSS)
    } else if n == 16 {
        Some(Code::UNAUTHENTICATED)
    } else {
        None
    }
}

/// Every code is found again from its number.
pub proof fn lemma_code_number_roundtrip(code: Code)
    ensures
        0 <= code_number(code) <= 16,
        code_of_number(code_number(code)) == Some(code),
{
}

/// A number that stands for a code is the number of that code.
pub proof fn lemma_code_of_number_inverse(n: int)
    ensures
        code_of_number(n) matches Some(c) ==> code_number(c) == n,
        code_of_number(n) is Some <==> 0 <= n <= 16,
{
}

impl Code {
    /// The number that stands for this code on the wire.
    pub fn value(self) -> (n: i32)
        ensures
            n == code_number(self),
    {
        match self {
            Code::OK => 0,
            Code::CANCELLED => 1,
            Code::UNKNOWN => 2,
            Code::INVALID_ARGUMENT => 3,
            Code::DEADLINE_EXCEEDED => 4,
            Code::NOT_FOUND => 5,
            Code::ALREADY_EXISTS => 6,
            Code::PERMISSION_DENIED => 7,
            Code::RESOURCE_EXHAUSTED => 8,
            Code::FAILED_PRECONDITION => 9,
            Code::ABORTED => 10,
            Code::OUT_OF_RANGE => 11,
            Code::UNIMPLEMENTED => 12,
            Code::INTERNAL => 13,
            Code::UNAVAILABLE => 14,
            Code::DATA_LOSS => 15,
            Code::UNAUTHENTICATED => 16,
        }
    }

    /// The code that `n` stands for; `None` for a number outside the set.
    pub fn from_i32(n: i32) -> (code: Option<Code>)
        ensures
            code == code_of_number(n as int),
    {
        match n {
            0 => Some(Code::OK),
            1 => Some(Code::CANCELLED),
            2 => Some(Code::UNKNOWN),
            3 => Some(Code::INVALID_ARGUMENT),
            4 => Some(Code::DEADLINE_EXCEEDED),
            5 => Some(Code::NOT_FOUND),
            6 => Some(Code::ALREADY_EXISTS),
            7 => Some(Code::PERMISSION_DENIED),
            8 => Some(Code::RESOURCE_EXHAUSTED),
            9 => Some(Code::FAILED_PRECONDITION),
            10 => Some(Code::ABORTED),
            11 => Some(Code::OUT_OF_RANGE),
            12 => Some(Code::UNIMPLEMENTED),
            13 => Some(Code::INTERNAL),
            14 => Some(Code::UNAVAILABLE),
            15 => Some(Code::DATA_LOSS),
            16 => Some(Code::UNAUTHENTICATED),
            _ => None,
        }
    }
}

/// The outcome of a call as the peer sees it: a code and a text.
#[derive(Clone, Debug, PartialEq, Eq)]
pub struct Status {
    pub code: Code,
    pub message: String,
}

/// What a `Status` holds, as mathematical values.
pub struct StatusView {
    pub code: Code,
    pub message: Seq<char>,
}

impl View for Status {
    type V = StatusView;

    open spec fn view(&self) -> StatusView {
        StatusView { code: self.code, message: self.message@ }
    }
}

/// The status made of `code` and `message`.
pub fn get_status(code: Code, message: String) -> (status: Status)
    ensures
        status@ == (StatusView { code, message: message@ }),
{
    Status { code, message }
}

/// Why an operation of the transport did not succeed.
#[derive(Clone, Debug, PartialEq, Eq)]
pub enum Error {
    /// The connection is gone or a read or write on it failed for good.
    Socket(String),
    /// The peer sent a frame that the protocol does not allow.
    Protocol(String),
    /// A structured failure of the application, sent to the peer as it is.
    RpcStatus(Status),
    /// Anything else: configuration, parsing, decoding.
    Others(String),
}

/// What an `Error` holds, as mathematical values.
pub enum ErrorView {
    Socket(Seq<char>),
    Protocol(Seq<char>),
    RpcStatus(StatusView),
    Others(Seq<char>),
}

impl View for Error {
    type V = ErrorView;

    open spec fn view(&self) -> ErrorView {
        match self {
            Error::Socket(s) => ErrorView::Socket(s@),
            Error::Protocol(s) => ErrorView::Protocol(s@),
            Error::RpcStatus(s) => ErrorView::RpcStatus(s@),
            Error::Others(s) => ErrorView::Others(s@),
        }
    }
}

impl Error {
    /// Whether the connection on which this error arose has to be given up.
    pub open spec fn is_fatal(self) -> bool {
        self is Socket || self is Protocol
    }

    /// Whether the connection on which this error arose has to be given up:
    /// so it is for socket and protocol errors, and for no other.
    pub fn fatal(&self) -> (b: bool)
        ensures
            b == self.is_fatal(),
    {
        match self {
            Error::Socket(_) => true,
            Error::Protocol(_) => true,
            _ => false,
        }
    }
}

} // verus!
