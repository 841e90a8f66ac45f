use vstd::prelude::*;

verus! {

/// Status code with which the OS reports success.
pub const IO_RETURN_SUCCESS: i32 = 0;

/// The failures that this library surfaces to its callers.
#[derive(Debug, Clone, Copy, PartialEq, Eq, Structural)]
pub enum Error {
    /// The OS gave no actionable status (for example a null handle).
    Unknown,
    /// The OS call failed with this raw status code.
    IOReturn(i32),
}

/// Maps the status code of an OS call to a `Result`.
pub fn status_result(status: i32) -> (r: Result<(), Error>)
    ensures
        status == IO_RETURN_SUCCESS <==> r is Ok,
        status != IO_RETURN_SUCCESS ==> r == Err::<(), Error>(Error::IOReturn(status)),
{
    if status == IO_RETURN_SUCCESS {
        Ok(())
    } else {
        Err(Error::IOReturn(status))
    }
}

} // verus!
