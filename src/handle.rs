use vstd::prelude::*;

verus! {

/// The report id that a report buffer names: its byte 0, or `0` when it is
/// empty.
pub open spec fn requested_report_id_of(buffer: Seq<u8>) -> u8 {
    if buffer.len() > 0 {
        buffer[0]
    } else {
        0
    }
}

/// Reads the report id that `buffer` names.
pub fn requested_report_id(buffer: &[u8]) -> (r: u8)
    ensures
        r == requested_report_id_of(buffer@),
{
    if buffer.len() > 0 {
        buffer[0]
    } else {
        0
    }
}

/// One native OS interface handle, as a platform backend provides it.
///
/// The library promises nothing of what these calls return: every function
/// that makes one states what holds for each outcome.
pub trait HidHandle: Sized {
    /// The interface opened for report I/O. Dropping it closes the
    /// interface, once, and swallows any failure of the close call.
    type Session: HidSession;

    /// Opens the interface for report I/O; on failure, the OS status.
    fn open_interface(&self) -> (r: Result<Self::Session, i32>);
}

/// An interface opened for report I/O.
pub trait HidSession: Sized {
    /// Asks for the input report `report_id`, which is byte 0 of `buffer`
    /// (`0` for an empty buffer). The call fills `buffer` in place, up to its
    /// length, and returns the OS status and the length that the OS reports
    /// for the report.
    fn get_report(&self, report_id: u8, buffer: &mut Vec<u8>) -> (r: (i32, usize))
        requires
            report_id == requested_report_id_of(old(buffer)@),
    ;

    /// Sends the output report `buffer` (byte 0 is the report id) and
    /// returns the OS status.
    fn set_report(&self, buffer: &[u8]) -> (status: i32);
}

} // verus!
