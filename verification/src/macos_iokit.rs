//! macOS, over IOKit: what the status codes of the kernel mean for a transfer.
use vstd::prelude::*;

use crate::transfer::TransferError;

verus! {

/// Device ID is the registry entry ID
pub type DeviceId = u64;

/// `kIOReturnSuccess`.
pub const RETURN_SUCCESS: u32 = 0;

/// `kIOReturnNoDevice`: no such device.
pub const RETURN_NO_DEVICE: u32 = 0xe000_02c0;

/// `kIOReturnBadArgument`: invalid argument, which a submission that failed reports.
pub const RETURN_BAD_ARGUMENT: u32 = 0xe000_02c2;

/// `kIOReturnUnderrun`: data underrun.
pub const RETURN_UNDERRUN: u32 = 0xe000_02e7;

/// `kIOReturnAborted`: operation aborted.
pub const RETURN_ABORTED: u32 = 0xe000_02eb;

/// `kIOUSBPipeStalled`: the pipe has stalled.
pub const USB_PIPE_STALLED: u32 = 0xe000_404f;

/// `kIOUSBTransactionTimeout`: the transaction timed out.
pub const USB_TRANSACTION_TIMEOUT: u32 = 0xe000_4051;

/// A status code read as an unsigned number, as IOKit's headers write it.
pub open spec fn unsigned(status: i32) -> int {
    if status >= 0 {
        status as int
    } else {
        status + 0x1_0000_0000
    }
}

/// What a status code means for the transfer that it ends. A short packet (an underrun) is a
/// success.
pub open spec fn transfer_result(code: int) -> Result<(), TransferError<u32>> {
    if code == RETURN_SUCCESS || code == RETURN_UNDERRUN {
        Ok(())
    } else if code == RETURN_NO_DEVICE {
        Err(TransferError::Disconnected)
    } else if code == RETURN_ABORTED || code == USB_TRANSACTION_TIMEOUT {
        Err(TransferError::Cancelled)
    } else if code == USB_PIPE_STALLED {
        Err(TransferError::Stall)
    } else if code == RETURN_BAD_ARGUMENT {
        Err(TransferError::InvalidArgument)
    } else {
        Err(TransferError::Unknown(code as u32))
    }
}

/// The outcome of a transfer, from the `IOReturn` that it ended with.
pub fn status_to_transfer_result(status: i32) -> (result: Result<(), TransferError<u32>>)
    ensures
        result == transfer_result(unsigned(status)),
{
    let code: u32 = #[verifier::truncate]
    (status as u32);
    assert(code == unsigned(status)) by {
        assert(status >= 0 ==> status as u32 == status) by (bit_vector);
        assert(status < 0 ==> status as u32 == status + 0x1_0000_0000) by (bit_vector);
    }
    if code == RETURN_SUCCESS || code == RETURN_UNDERRUN {
        Ok(())
    } else if code == RETURN_NO_DEVICE {
        Err(TransferError::Disconnected)
    } else if code == RETURN_ABORTED || code == USB_TRANSACTION_TIMEOUT {
        Err(TransferError::Cancelled)
    } else if code == USB_PIPE_STALLED {
        Err(TransferError::Stall)
    } else if code == RETURN_BAD_ARGUMENT {
        Err(TransferError::InvalidArgument)
    } else {
        Err(TransferError::Unknown(code))
    }
}

/// Which statuses a transfer can end with, as IOKit writes them: it succeeded only with
/// 0 or an underrun (`e00002e7`), lost its device only with `e00002c0`, was cancelled only with
/// `e00002eb` or `e0004051`, stalled only with `e000404f`, and was malformed only with `e00002c2`.
/// Any other status is handed on, as the unsigned number with the same bits.
pub proof fn law_status(status: i32, result: Result<(), TransferError<u32>>)
    requires
        call_ensures(status_to_transfer_result, (status,), result),
    ensures
        ({
            let code = status as int % 0x1_0000_0000;
            &&& result is Ok <==> set![0int, 0xe000_02e7].contains(code)
            &&& result == Err::<(), _>(TransferError::<u32>::Disconnected) <==> code == 0xe000_02c0
            &&& result == Err::<(), _>(TransferError::<u32>::Cancelled) <==> set![
                0xe000_02ebint,
                0xe000_4051,
            ].contains(code)
            &&& result == Err::<(), _>(TransferError::<u32>::Stall) <==> code == 0xe000_404f
            &&& result == Err::<(), _>(TransferError::<u32>::InvalidArgument) <==> code
                == 0xe000_02c2
            &&& result matches Err(TransferError::Unknown(unknown)) ==> (unknown - status)
                % 0x1_0000_0000 == 0
        }),
{
}

} // verus!
