//! Status codes and messages that transport operations fail with.

use vstd::prelude::*;

verus! {

/// The uProtocol status codes that this transport reports.
#[derive(Clone, Copy, Debug, PartialEq, Eq, Structural)]
pub enum UCode {
    InvalidArgument,
    DeadlineExceeded,
    NotFound,
    AlreadyExists,
    ResourceExhausted,
    Unimplemented,
    Internal,
}

/// A failed operation: its code, and a message for a human reader.
#[derive(Clone, Debug, PartialEq, Eq)]
pub struct UStatus {
    pub code: UCode,
    pub message: String,
}

impl UStatus {
    /// Whether this status carries exactly `code` and `message`.
    pub open spec fn says(self, code: UCode, message: Seq<char>) -> bool {
        self.code == code && self.message@ == message
    }

    /// A status with the given code and message.
    pub fn fail_with_code(code: UCode, message: &str) -> (status: UStatus)
        ensures
            status.says(code, message@),
    {
        UStatus { code, message: message.to_owned() }
    }

    /// The status code.
    pub fn get_code(&self) -> (code: UCode)
        ensures
            code == self.code,
    {
        self.code
    }

    /// The message.
    pub fn message(&self) -> (message: &str)
        ensures
            message@ == self.message@,
    {
        self.message.as_str()
    }
}

/// Whether `result` fails with exactly `code` and `message`.
pub open spec fn fails_with<T>(
    result: Result<T, UStatus>,
    code: UCode,
    message: Seq<char>,
) -> bool {
    match result {
        Ok(_) => false,
        Err(status) => status.says(code, message),
    }
}

/// A status says its own code and message, and no other; success says nothing, and a failure what
/// its status says.
pub proof fn status_says_one_thing<T>(
    status: UStatus,
    code: UCode,
    message: Seq<char>,
    value: T,
)
    ensures
        status.says(status.code, status.message@),
        status.says(code, message) ==> code == status.code && message == status.message@,
        !fails_with(Ok::<T, UStatus>(value), code, message),
        fails_with(Err::<T, UStatus>(status), status.code, status.message@),
        fails_with(Err::<T, UStatus>(status), code, message) ==> code == status.code && message
            == status.message@,
{
}

} // verus!
