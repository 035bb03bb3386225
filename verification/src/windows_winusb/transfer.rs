//! The state of one transfer on an endpoint, and the buffer that it owns meanwhile.
use vstd::prelude::*;

use crate::transfer::{Allocator, Buffer, Direction, TransferError};
use crate::windows_winusb::win32;

verus! {

/// What the operating system writes into an `OVERLAPPED` when a transfer completes.
#[derive(Clone, Copy, Debug, PartialEq, Eq, Structural)]
pub struct Overlapped {
    /// The status.
    pub internal: usize,
    /// The number of bytes transferred.
    pub internal_high: usize,
}

/// One transfer on one endpoint.
#[derive(Debug)]
pub struct TransferData {
    /// `internal` contains the status, `internal_high` the number of bytes transferred.
    pub overlapped: Overlapped,
    /// The memory of the buffer that the transfer holds; none between transfers.
    pub buf: Vec<u8>,
    /// The size of that memory.
    pub capacity: u32,
    /// How many bytes the transfer asks for.
    pub request_len: u32,
    /// The address of the endpoint.
    pub endpoint: u8,
}

/// The low 32 bits of a word.
pub open spec fn low32(word: usize) -> int {
    word as int % 0x1_0000_0000
}

/// A 32 bit code read as a signed number.
pub open spec fn signed(code: int) -> int {
    if code < 0x8000_0000 {
        code
    } else {
        code - 0x1_0000_0000
    }
}

/// What a Win32 status code means for the transfer that it ends.
pub open spec fn transfer_result(code: int) -> Result<(), TransferError<i32>> {
    if code == 0 {
        Ok(())
    } else if code == 31 {
        Err(TransferError::Stall)
    } else if code == 1235 || code == 1460 || code == 121 || code == 995 {
        Err(TransferError::Cancelled)
    } else if code == 2 || code == 1167 || code == 433 {
        Err(TransferError::Disconnected)
    } else {
        Err(TransferError::Unknown(signed(code) as i32))
    }
}

/// `after` is `before` with the buffer `buf` to run on, and nothing transferred yet.
pub open spec fn holds_buffer(before: TransferData, buf: Buffer, after: TransferData) -> bool {
    &&& after.buf == buf.memory
    &&& after.capacity == buf.capacity
    &&& after.request_len == (match Direction::of_address(before.endpoint) {
        Direction::Out => buf.len,
        Direction::In => buf.transfer_len,
    })
    &&& after.overlapped.internal == before.overlapped.internal
    &&& after.overlapped.internal_high == 0
    &&& after.endpoint == before.endpoint
}

/// `buf` is the buffer that `before` held, with how much of it was used, and `after` is `before`
/// without it.
pub open spec fn gives_buffer(before: TransferData, buf: Buffer, after: TransferData) -> bool {
    &&& buf.memory == before.buf
    &&& buf.capacity == before.capacity
    &&& buf.allocator == Allocator::Default
    &&& match Direction::of_address(before.endpoint) {
        Direction::Out => {
            &&& buf.len == before.request_len
            &&& buf.transfer_len == low32(before.overlapped.internal_high)
        },
        Direction::In => {
            &&& buf.len == low32(before.overlapped.internal_high)
            &&& buf.transfer_len == before.request_len
        },
    }
    &&& after.buf@.len() == 0
    &&& after.capacity == 0
    &&& after.request_len == 0
    &&& after.overlapped.internal == before.overlapped.internal
    &&& after.overlapped.internal_high == 0
    &&& after.endpoint == before.endpoint
}

/// `after` is `before` with another status and another number of bytes transferred: all that the
/// operating system writes while a transfer runs.
pub open spec fn completes(before: TransferData, after: TransferData) -> bool {
    &&& after.buf == before.buf
    &&& after.capacity == before.capacity
    &&& after.request_len == before.request_len
    &&& after.endpoint == before.endpoint
}

/// The buffer that is given to a transfer comes back when it is over, with the same memory.
/// Host to device, it still tells how many bytes it held, and how many of them were sent; device
/// to host, it tells how many bytes came in, and still how many were wanted. The transfer can
/// then be given another buffer.
pub proof fn law_buffer_comes_back(
    idle: TransferData,
    given: Buffer,
    submitted: TransferData,
    completed: TransferData,
    taken: Buffer,
    after: TransferData,
)
    requires
        holds_buffer(idle, given, submitted),
        completes(submitted, completed),
        gives_buffer(completed, taken, after),
    ensures
        taken.memory == given.memory,
        taken.capacity == given.capacity,
        given.wf() ==> taken.wf(),
        Direction::of_address(idle.endpoint) == Direction::Out ==> taken.len == given.len
            && taken.transfer_len == low32(completed.overlapped.internal_high),
        Direction::of_address(idle.endpoint) == Direction::In ==> taken.transfer_len
            == given.transfer_len && taken.len == low32(completed.overlapped.internal_high),
        after.capacity == 0,
        after.endpoint == idle.endpoint,
{
}

/// A buffer that is taken back before the transfer ran tells of no bytes transferred.
pub proof fn law_buffer_taken_at_once(
    idle: TransferData,
    given: Buffer,
    submitted: TransferData,
    taken: Buffer,
    after: TransferData,
)
    requires
        holds_buffer(idle, given, submitted),
        gives_buffer(submitted, taken, after),
    ensures
        taken.memory == given.memory,
        Direction::of_address(idle.endpoint) == Direction::Out ==> taken.len == given.len
            && taken.transfer_len == 0,
        Direction::of_address(idle.endpoint) == Direction::In ==> taken.transfer_len
            == given.transfer_len && taken.len == 0,
{
}

/// Once its buffer is taken, a transfer has none: what is taken next is empty.
pub proof fn law_buffer_is_taken_once(
    held: TransferData,
    first: Buffer,
    between: TransferData,
    second: Buffer,
    after: TransferData,
)
    requires
        gives_buffer(held, first, between),
        gives_buffer(between, second, after),
    ensures
        second.memory@.len() == 0,
        second.capacity == 0,
        second.len == 0,
        second.transfer_len == 0,
        after.overlapped == between.overlapped,
{
}

/// Takes the low 32 bits of a word.
fn truncate(word: usize) -> (low: u32)
    ensures
        low == low32(word),
{
    let wide: u64 = word as u64;
    assert(wide as u32 == wide % 0x1_0000_0000) by (bit_vector);
    #[verifier::truncate]
    (wide as u32)
}

impl TransferData {
    /// The capacity tells the size of the memory that the transfer holds.
    pub open spec fn wf(&self) -> bool {
        self.buf@.len() == self.capacity
    }

    /// A transfer that holds no buffer and has not run.
    pub fn new(endpoint: u8) -> (transfer: TransferData)
        ensures
            transfer.wf(),
            transfer.overlapped == (Overlapped { internal: 0, internal_high: 0 }),
            transfer.buf@.len() == 0,
            transfer.capacity == 0,
            transfer.request_len == 0,
            transfer.endpoint == endpoint,
    {
        TransferData {
            overlapped: Overlapped { internal: 0, internal_high: 0 },
            buf: Vec::new(),
            capacity: 0,
            request_len: 0,
            endpoint,
        }
    }

    /// The number of bytes transferred.
    pub fn actual_len(&self) -> (len: usize)
        ensures
            len == self.overlapped.internal_high,
    {
        self.overlapped.internal_high
    }

    /// The outcome of the transfer: what the low 32 bits of its status mean.
    pub fn status(&self) -> (result: Result<(), TransferError<i32>>)
        ensures
            result == transfer_result(low32(self.overlapped.internal)),
    {
        let code: u32 = truncate(self.overlapped.internal);
        if code == win32::error_success() {
            Ok(())
        } else if code == win32::error_gen_failure() {
            Err(TransferError::Stall)
        } else if code == win32::error_request_aborted() || code == win32::error_timeout() || code
            == win32::error_sem_timeout() || code == win32::error_operation_aborted() {
            Err(TransferError::Cancelled)
        } else if code == win32::error_file_not_found() || code
            == win32::error_device_not_connected() || code == win32::error_no_such_device() {
            Err(TransferError::Disconnected)
        } else {
            let unknown: i32 = #[verifier::truncate]
            (code as i32);
            assert(unknown == signed(code as int)) by {
                assert(code < 0x8000_0000 ==> code as i32 == code) by (bit_vector);
                assert(code >= 0x8000_0000 ==> code as i32 == code - 0x1_0000_0000) by (bit_vector);
            }
            Err(TransferError::Unknown(unknown))
        }
    }

    /// Gives the transfer the buffer that it runs on next. The transfer must hold none.
    ///
    /// Host to device, the bytes of the buffer are to be sent; device to host, as many bytes are
    /// asked for as the buffer wants.
    pub fn set_buffer(&mut self, buf: Buffer)
        requires
            old(self).capacity == 0,
        ensures
            holds_buffer(*old(self), buf, *final(self)),
            buf.wf() ==> final(self).wf(),
    {
        self.capacity = buf.capacity;
        self.overlapped.internal_high = 0;
        self.request_len = match Direction::from_address(self.endpoint) {
            Direction::Out => buf.len,
            Direction::In => buf.transfer_len,
        };
        self.buf = buf.memory;
    }

    /// Takes the buffer back, with how much of it the transfer used, and leaves none.
    pub fn take_buffer(&mut self) -> (buf: Buffer)
        ensures
            gives_buffer(*old(self), buf, *final(self)),
            final(self).wf(),
            old(self).wf() ==> buf.wf(),
    {
        let mut memory: Vec<u8> = Vec::new();
        core::mem::swap(&mut self.buf, &mut memory);
        let capacity: u32 = self.capacity;
        self.capacity = 0;
        let used: u32 = truncate(self.overlapped.internal_high);
        let (len, transfer_len): (u32, u32) = match Direction::from_address(self.endpoint) {
            Direction::Out => (self.request_len, used),
            Direction::In => (used, self.request_len),
        };
        self.request_len = 0;
        self.overlapped.internal_high = 0;
        Buffer { memory, len, transfer_len, capacity, allocator: Allocator::Default }
    }
}

/// On an endpoint whose address has its top bit set, a transfer asks for as many bytes as the
/// buffer wants, and on any other endpoint for as many as the buffer holds. Either way it has the
/// memory of the buffer, and has transferred nothing yet.
pub proof fn law_set_buffer_asks(before: TransferData, buf: Buffer, after: TransferData)
    requires
        holds_buffer(before, buf, after),
    ensures
        before.endpoint & 0x80 != 0 ==> after.request_len == buf.transfer_len,
        before.endpoint & 0x80 == 0 ==> after.request_len == buf.len,
        after.buf@ == buf.memory@,
        after.capacity == buf.capacity,
        after.overlapped.internal == before.overlapped.internal,
        after.overlapped.internal_high == 0,
        after.endpoint == before.endpoint,
{
    let endpoint = before.endpoint;
    assert(endpoint >= 0x80 <==> endpoint & 0x80 != 0) by (bit_vector);
}

/// Of a transfer that moved `moved` bytes, as far as 32 bits go, the buffer comes back with `moved` bytes of data where
/// the top bit of the endpoint address is set, and with `moved` bytes sent where it is not; the
/// other length is what the transfer asked for. The memory comes back whole, and nothing is left.
pub proof fn law_take_buffer_tells(
    before: TransferData,
    moved: u32,
    buf: Buffer,
    after: TransferData,
)
    requires
        before.overlapped.internal_high as int % 0x1_0000_0000 == moved,
        gives_buffer(before, buf, after),
    ensures
        before.endpoint & 0x80 != 0 ==> buf.len == moved && buf.transfer_len == before.request_len,
        before.endpoint & 0x80 == 0 ==> buf.len == before.request_len && buf.transfer_len == moved,
        buf.memory@ == before.buf@,
        buf.capacity == before.capacity,
        after.buf@ == Seq::<u8>::empty(),
        after.capacity == 0,
        after.request_len == 0,
        after.overlapped.internal == before.overlapped.internal,
        after.overlapped.internal_high == 0,
        after.endpoint == before.endpoint,
{
    let endpoint = before.endpoint;
    assert(endpoint >= 0x80 <==> endpoint & 0x80 != 0) by (bit_vector);
}

/// What `set_buffer` does to a transfer: by the top bit of its endpoint address, it asks for as
/// many bytes as the buffer wants or holds, on the memory of the buffer.
pub proof fn law_set_buffer(transfer: &mut TransferData, buf: Buffer)
    requires
        call_ensures(TransferData::set_buffer, (transfer, buf), ()),
    ensures
        old(transfer).endpoint & 0x80 != 0 ==> final(transfer).request_len == buf.transfer_len,
        old(transfer).endpoint & 0x80 == 0 ==> final(transfer).request_len == buf.len,
        final(transfer).buf@ == buf.memory@,
        final(transfer).capacity == buf.capacity,
        final(transfer).overlapped.internal == old(transfer).overlapped.internal,
        final(transfer).overlapped.internal_high == 0,
        final(transfer).endpoint == old(transfer).endpoint,
{
    law_set_buffer_asks(*old(transfer), buf, *final(transfer));
}

/// What `take_buffer` gives back of a transfer that moved `moved` bytes: by the top bit of its
/// endpoint address, a buffer with `moved` bytes of data, or one of which `moved` bytes were sent.
pub proof fn law_take_buffer(transfer: &mut TransferData, moved: u32, buf: Buffer)
    requires
        old(transfer).overlapped.internal_high == moved,
        call_ensures(TransferData::take_buffer, (transfer,), buf),
    ensures
        old(transfer).endpoint & 0x80 != 0 ==> buf.len == moved && buf.transfer_len == old(
            transfer,
        ).request_len,
        old(transfer).endpoint & 0x80 == 0 ==> buf.len == old(transfer).request_len
            && buf.transfer_len == moved,
        buf.memory@ == old(transfer).buf@,
        buf.capacity == old(transfer).capacity,
        final(transfer).buf@ == Seq::<u8>::empty(),
        final(transfer).capacity == 0,
        final(transfer).request_len == 0,
        final(transfer).overlapped.internal == old(transfer).overlapped.internal,
        final(transfer).overlapped.internal_high == 0,
        final(transfer).endpoint == old(transfer).endpoint,
{
    law_take_buffer_tells(*old(transfer), moved, buf, *final(transfer));
}

/// A new transfer is given a buffer and runs, and the operating system reports `moved` bytes; then
/// the buffer is taken back. It has the same memory. Where the top bit of the endpoint address is
/// set, `moved` bytes came in, and as many are wanted as before; where it is not, `moved` bytes
/// were sent of as many as there were. The transfer is then as a new one, but for its status.
pub proof fn law_transfer_round_trip(
    endpoint: u8,
    submitted: &mut TransferData,
    given: Buffer,
    completed: &mut TransferData,
    moved: u32,
    actual: usize,
    taken: Buffer,
)
    requires
        call_ensures(TransferData::new, (endpoint,), *old(submitted)),
        call_ensures(TransferData::set_buffer, (submitted, given), ()),
        old(completed).buf == final(submitted).buf,
        old(completed).capacity == final(submitted).capacity,
        old(completed).request_len == final(submitted).request_len,
        old(completed).endpoint == final(submitted).endpoint,
        old(completed).overlapped.internal_high == moved,
        call_ensures(TransferData::actual_len, (&*old(completed),), actual),
        call_ensures(TransferData::take_buffer, (completed,), taken),
    ensures
        old(submitted).capacity == 0,
        endpoint & 0x80 != 0 ==> {
            &&& final(submitted).request_len == given.transfer_len
            &&& taken.len == moved
            &&& taken.transfer_len == given.transfer_len
        },
        endpoint & 0x80 == 0 ==> {
            &&& final(submitted).request_len == given.len
            &&& taken.len == given.len
            &&& taken.transfer_len == moved
        },
        taken.memory@ == given.memory@,
        taken.capacity == given.capacity,
        actual == moved,
        final(completed).endpoint == endpoint,
        final(completed).capacity == 0,
        final(completed).request_len == 0,
        final(completed).buf@ == Seq::<u8>::empty(),
        final(completed).overlapped.internal_high == 0,
{
    law_set_buffer_asks(*old(submitted), given, *final(submitted));
    law_take_buffer_tells(*old(completed), moved, taken, *final(completed));
}

/// Which statuses a transfer can end with: it succeeded only with status 0, stalled only with 31,
/// was cancelled only with 121, 995, 1235 or 1460, and lost its device only with 2, 433 or 1167.
/// Any other status is handed on, as the signed number with the same low 32 bits.
pub proof fn law_status(transfer: TransferData, result: Result<(), TransferError<i32>>)
    requires
        call_ensures(TransferData::status, (&transfer,), result),
    ensures
        ({
            let code = transfer.overlapped.internal as int % 0x1_0000_0000;
            let cancelled = set![121int, 995, 1235, 1460];
            let disconnected = set![2int, 433, 1167];
            &&& result is Ok <==> code == 0
            &&& result == Err::<(), _>(TransferError::<i32>::Stall) <==> code == 31
            &&& result == Err::<(), _>(TransferError::<i32>::Cancelled) <==> cancelled.contains(
                code,
            )
            &&& result == Err::<(), _>(TransferError::<i32>::Disconnected)
                <==> disconnected.contains(code)
            &&& result != Err::<(), _>(TransferError::<i32>::InvalidArgument)
            &&& result matches Err(TransferError::Unknown(unknown)) ==> (unknown - code)
                % 0x1_0000_0000 == 0
        }),
{
}

} // verus!
