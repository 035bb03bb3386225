//! The Win32 status codes that a transfer can end with, from `windows_sys`.
use vstd::prelude::*;
use windows_sys::Win32::Foundation;

verus! {

/// `windows_sys::Win32::Foundation::ERROR_SUCCESS`, the operation completed: the constant is 0.
#[verifier::external_body]
pub(crate) fn error_success() -> (code: u32)
    ensures
        code == 0,
{
    Foundation::ERROR_SUCCESS
}

/// `windows_sys::Win32::Foundation::ERROR_FILE_NOT_FOUND`: the constant is 2.
#[verifier::external_body]
pub(crate) fn error_file_not_found() -> (code: u32)
    ensures
        code == 2,
{
    Foundation::ERROR_FILE_NOT_FOUND
}

/// `windows_sys::Win32::Foundation::ERROR_GEN_FAILURE`, a device that is not functioning: the
/// constant is 31.
#[verifier::external_body]
pub(crate) fn error_gen_failure() -> (code: u32)
    ensures
        code == 31,
{
    Foundation::ERROR_GEN_FAILURE
}

/// `windows_sys::Win32::Foundation::ERROR_SEM_TIMEOUT`, the semaphore timed out: the constant is
/// 121.
#[verifier::external_body]
pub(crate) fn error_sem_timeout() -> (code: u32)
    ensures
        code == 121,
{
    Foundation::ERROR_SEM_TIMEOUT
}

/// `windows_sys::Win32::Foundation::ERROR_NO_SUCH_DEVICE`: the constant is 433.
#[verifier::external_body]
pub(crate) fn error_no_such_device() -> (code: u32)
    ensures
        code == 433,
{
    Foundation::ERROR_NO_SUCH_DEVICE
}

/// `windows_sys::Win32::Foundation::ERROR_OPERATION_ABORTED`: the constant is 995.
#[verifier::external_body]
pub(crate) fn error_operation_aborted() -> (code: u32)
    ensures
        code == 995,
{
    Foundation::ERROR_OPERATION_ABORTED
}

/// `windows_sys::Win32::Foundation::ERROR_DEVICE_NOT_CONNECTED`: the constant is 1167.
#[verifier::external_body]
pub(crate) fn error_device_not_connected() -> (code: u32)
    ensures
        code == 1167,
{
    Foundation::ERROR_DEVICE_NOT_CONNECTED
}

/// `windows_sys::Win32::Foundation::ERROR_REQUEST_ABORTED`: the constant is 1235.
#[verifier::external_body]
pub(crate) fn error_request_aborted() -> (code: u32)
    ensures
        code == 1235,
{
    Foundation::ERROR_REQUEST_ABORTED
}

/// `windows_sys::Win32::Foundation::ERROR_TIMEOUT`: the constant is 1460.
#[verifier::external_body]
pub(crate) fn error_timeout() -> (code: u32)
    ensures
        code == 1460,
{
    Foundation::ERROR_TIMEOUT
}

} // verus!
