//! The failures that the library reports.

use vstd::prelude::*;

verus! {

/// The operation that an [`Error::OperationFailed`] names.
#[derive(Copy, Clone, Debug, PartialEq, Eq, Structural)]
pub enum OperationType {
    /// Creating a line configuration.
    ConfigNew,
    /// Assigning settings to offsets of a line configuration.
    LineConfigAddSettings,
    /// Reading the settings of one offset of a line configuration.
    LineConfigGetSettings,
    /// Reading the offsets of a line configuration.
    LineConfigGetOffsets,
    /// Reading the value of a line of a simulated bank.
    SimBankGetVal,
}

/// A failure of the library.
#[derive(Copy, Clone, Debug, PartialEq, Eq)]
pub enum Error {
    /// The operation failed; the second field is the OS error code that the
    /// calling thread held right after the failure.
    OperationFailed(OperationType, i32),
    /// A numeric code is none of those that the named enumeration knows.
    InvalidEnumValue(&'static str, i32),
}

/// The status by which a native call reports that it failed.
pub const STATUS_FAILED: i32 = -1;

/// Calls `errno::errno` and hands back the code it holds. The code is whatever
/// the calling thread's last failing call left behind, so nothing is claimed
/// of it.
#[verifier::external_body]
fn errno_code() -> i32 {
    errno::errno().0
}

impl Error {
    /// The failure of `operation`, with the OS error code that the calling
    /// thread holds at this moment. Call it right after the failure, before
    /// anything else can overwrite the code.
    pub fn last_os_error(operation: OperationType) -> (e: Error)
        ensures
            e matches Error::OperationFailed(op, _) && op == operation,
    {
        Error::OperationFailed(operation, errno_code())
    }
}

/// Turns what a native call that answers with a handle came to into a
/// result: a null handle is the failure of `operation` with the thread's
/// current OS error code, any other handle is success.
pub fn check_handle(operation: OperationType, is_null: bool) -> (r: Result<(), Error>)
    ensures
        !is_null ==> r is Ok,
        is_null ==> (r matches Err(Error::OperationFailed(op, _)) && op == operation),
{
    if is_null {
        Err(Error::last_os_error(operation))
    } else {
        Ok(())
    }
}

/// Turns the status of a native call into a result: [`STATUS_FAILED`] is the
/// failure of `operation` with the thread's current OS error code, every other
/// status is success.
pub fn check_status(operation: OperationType, status: i32) -> (r: Result<(), Error>)
    ensures
        status != STATUS_FAILED ==> r is Ok,
        status == STATUS_FAILED ==> (r matches Err(Error::OperationFailed(op, _)) && op
            == operation),
{
    if status == STATUS_FAILED {
        Err(Error::last_os_error(operation))
    } else {
        Ok(())
    }
}

} // verus!
