use vstd::prelude::*;
use crate::descriptor::{Descriptor, Handle};

verus! {

/// An error reported by the operating system, with its native error code.
#[derive(Clone, Copy, Debug, PartialEq, Eq, Structural)]
pub struct OsError {
    pub code: i32,
}

impl OsError {
    /// Wraps a native error code.
    pub fn from_raw_os_error(code: i32) -> (e: OsError)
        ensures
            e.code == code,
    {
        OsError { code }
    }

    /// The native error code this error carries.
    pub fn raw_os_error(&self) -> (r: Option<i32>)
        ensures
            r == Some(self.code),
    {
        Some(self.code)
    }
}

/// Reads the status of a call that returns a descriptor, or a negative value on
/// failure (`dup2`, `open`, `_open_osfhandle`); `code` is the error the system reported
/// for the call.
pub fn check_descriptor(status: i32, code: i32) -> (r: Result<Descriptor, OsError>)
    ensures
        status >= 0 ==> r == Ok::<Descriptor, OsError>(status),
        status < 0 ==> r == Err::<Descriptor, OsError>(OsError { code }),
{
    if status < 0 {
        Err(OsError { code })
    } else {
        Ok(status)
    }
}

/// Reads the status of a call that returns a handle, or a negative value on failure
/// (`_get_osfhandle`).
pub fn check_handle(handle: Handle, code: i32) -> (r: Result<Handle, OsError>)
    ensures
        handle >= 0 ==> r == Ok::<Handle, OsError>(handle),
        handle < 0 ==> r == Err::<Handle, OsError>(OsError { code }),
{
    if handle < 0 {
        Err(OsError { code })
    } else {
        Ok(handle)
    }
}

/// Reads the status of a call that returns a boolean flag, zero on failure
/// (`SetStdHandle`).
pub fn check_flag(flag: i32, code: i32) -> (r: Result<(), OsError>)
    ensures
        flag != 0 ==> r == Ok::<(), OsError>(()),
        flag == 0 ==> r == Err::<(), OsError>(OsError { code }),
{
    if flag == 0 {
        Err(OsError { code })
    } else {
        Ok(())
    }
}

} // verus!
