use usb_platform::macos_iokit::{status_to_transfer_result, DeviceId};
use usb_platform::transfer::{Allocator, Buffer, Direction, TransferError};
use usb_platform::windows_winusb::transfer::{Overlapped, TransferData};
use windows_sys::Win32::Foundation;

fn buffer(memory: Vec<u8>, len: u32, transfer_len: u32) -> Buffer {
    let capacity = memory.len() as u32;
    Buffer { memory, len, transfer_len, capacity, allocator: Allocator::Default }
}

fn status_of(internal: usize) -> Result<(), TransferError<i32>> {
    let mut transfer = TransferData::new(0x01);
    transfer.overlapped = Overlapped { internal, internal_high: 0 };
    transfer.status()
}

#[test]
fn win32_codes() {
    assert_eq!(status_of(Foundation::ERROR_SUCCESS as usize), Ok(()));
    assert_eq!(status_of(Foundation::ERROR_GEN_FAILURE as usize), Err(TransferError::Stall));
    for code in [
        Foundation::ERROR_REQUEST_ABORTED,
        Foundation::ERROR_TIMEOUT,
        Foundation::ERROR_SEM_TIMEOUT,
        Foundation::ERROR_OPERATION_ABORTED,
    ] {
        assert_eq!(status_of(code as usize), Err(TransferError::Cancelled));
    }
    for code in [
        Foundation::ERROR_FILE_NOT_FOUND,
        Foundation::ERROR_DEVICE_NOT_CONNECTED,
        Foundation::ERROR_NO_SUCH_DEVICE,
    ] {
        assert_eq!(status_of(code as usize), Err(TransferError::Disconnected));
    }
    assert_eq!(status_of(1), Err(TransferError::Unknown(1)));
    assert_eq!(status_of(0xffff_ffff), Err(TransferError::Unknown(-1)));
    assert_eq!(status_of(0x8000_0000), Err(TransferError::Unknown(i32::MIN)));
}

#[test]
fn win32_codes_by_number() {
    assert_eq!(status_of(0), Ok(()));
    assert_eq!(status_of(2), Err(TransferError::Disconnected));
    assert_eq!(status_of(31), Err(TransferError::Stall));
    assert_eq!(status_of(121), Err(TransferError::Cancelled));
    assert_eq!(status_of(433), Err(TransferError::Disconnected));
    assert_eq!(status_of(995), Err(TransferError::Cancelled));
    assert_eq!(status_of(1167), Err(TransferError::Disconnected));
    assert_eq!(status_of(1235), Err(TransferError::Cancelled));
    assert_eq!(status_of(1460), Err(TransferError::Cancelled));
}

#[test]
fn only_the_low_half_of_a_status_counts() {
    if usize::BITS == 64 {
        assert_eq!(status_of((7usize << 16) << 16), Ok(()));
        assert_eq!(status_of(((7usize << 16) << 16) + 31), Err(TransferError::Stall));
    }
}

#[test]
fn iokit_codes() {
    fn of(code: u32) -> Result<(), TransferError<u32>> {
        status_to_transfer_result(code as i32)
    }
    assert_eq!(of(0), Ok(()));
    assert_eq!(of(0xe000_02e7), Ok(()));
    assert_eq!(of(0xe000_02c0), Err(TransferError::Disconnected));
    assert_eq!(of(0xe000_02eb), Err(TransferError::Cancelled));
    assert_eq!(of(0xe000_4051), Err(TransferError::Cancelled));
    assert_eq!(of(0xe000_404f), Err(TransferError::Stall));
    assert_eq!(of(0xe000_02c2), Err(TransferError::InvalidArgument));
    assert_eq!(of(0xe000_02bc), Err(TransferError::Unknown(0xe000_02bc)));
    assert_eq!(of(5), Err(TransferError::Unknown(5)));
    let id: DeviceId = u64::MAX;
    assert_eq!(id, 0xffff_ffff_ffff_ffff);
}

#[test]
fn directions() {
    assert_eq!(Direction::from_address(0x7f), Direction::Out);
    assert_eq!(Direction::from_address(0x80), Direction::In);
}

#[test]
fn out_buffer_comes_back() {
    let mut transfer = TransferData::new(0x02);
    transfer.set_buffer(buffer(vec![1, 2, 3, 4], 3, 9));
    assert_eq!(transfer.request_len, 3);
    assert_eq!(transfer.capacity, 4);
    transfer.overlapped = Overlapped { internal: 0, internal_high: 2 };
    assert_eq!(transfer.actual_len(), 2);
    let taken = transfer.take_buffer();
    assert_eq!(taken.memory, vec![1, 2, 3, 4]);
    assert_eq!((taken.len, taken.transfer_len, taken.capacity), (3, 2, 4));
    assert_eq!(taken.allocator, Allocator::Default);
    assert_eq!((transfer.capacity, transfer.request_len, transfer.actual_len()), (0, 0, 0));

    let again = transfer.take_buffer();
    assert_eq!((again.memory.len(), again.len, again.transfer_len, again.capacity), (0, 0, 0, 0));
}

#[test]
fn in_buffer_comes_back() {
    let mut transfer = TransferData::new(0x82);
    transfer.overlapped = Overlapped { internal: 31, internal_high: 77 };
    transfer.set_buffer(buffer(vec![0; 8], 0, 6));
    assert_eq!(transfer.request_len, 6);
    assert_eq!(transfer.overlapped, Overlapped { internal: 31, internal_high: 0 });
    transfer.overlapped.internal_high = 5;
    let taken = transfer.take_buffer();
    assert_eq!((taken.len, taken.transfer_len, taken.capacity), (5, 6, 8));
    assert_eq!(transfer.status(), Err(TransferError::Stall));
    transfer.set_buffer(buffer(vec![9], 1, 1));
    assert_eq!(transfer.buf, vec![9]);
}

#[test]
fn buffer_taken_before_the_transfer_ran() {
    let mut out = TransferData::new(0x02);
    out.set_buffer(buffer(vec![1, 2], 2, 5));
    let taken = out.take_buffer();
    assert_eq!((taken.len, taken.transfer_len), (2, 0));
    let mut inward = TransferData::new(0x82);
    inward.set_buffer(buffer(vec![1, 2], 1, 2));
    let taken = inward.take_buffer();
    assert_eq!((taken.len, taken.transfer_len), (0, 2));
}
