//! Transfer outcomes and the buffers that transfers carry, on every platform.
use vstd::prelude::*;

verus! {

/// Why a transfer did not complete.
///
/// `Code` is the integer type in which a platform hands out the status codes that have no
/// meaning of their own here.
#[derive(Clone, Copy, Debug, PartialEq, Eq)]
pub enum TransferError<Code> {
    /// The transfer was cancelled, or ran out of time.
    Cancelled,
    /// The endpoint is in the stall state.
    Stall,
    /// The device is gone.
    Disconnected,
    /// The operating system refused the request as malformed.
    InvalidArgument,
    /// Any other status, as the operating system gave it.
    Unknown(Code),
}

/// Which way the data of an endpoint goes.
#[derive(Clone, Copy, Debug, PartialEq, Eq, Structural)]
pub enum Direction {
    /// Host to device.
    Out,
    /// Device to host.
    In,
}

impl Direction {
    /// The top bit of an endpoint address tells the direction: set for device to host.
    pub open spec fn of_address(address: u8) -> Direction {
        if address >= 0x80 {
            Direction::In
        } else {
            Direction::Out
        }
    }

    /// The direction of the endpoint with this address.
    pub fn from_address(address: u8) -> (direction: Direction)
        ensures
            direction == Direction::of_address(address),
    {
        if address >= 0x80 {
            Direction::In
        } else {
            Direction::Out
        }
    }
}

/// Where the memory of a buffer comes from.
#[derive(Clone, Copy, Debug, PartialEq, Eq, Structural)]
pub enum Allocator {
    /// The heap.
    Default,
}

/// The memory of a transfer, and how much of it is in use.
#[derive(Debug)]
pub struct Buffer {
    /// The memory itself, all of it: as many bytes as `capacity` says.
    pub memory: Vec<u8>,
    /// How many bytes, from the start, hold data.
    pub len: u32,
    /// How many bytes are wanted (device to host) or were sent (host to device).
    pub transfer_len: u32,
    /// How many bytes there are.
    pub capacity: u32,
    /// Where the memory comes from.
    pub allocator: Allocator,
}

impl Buffer {
    /// The capacity tells the size of the memory.
    pub open spec fn wf(&self) -> bool {
        self.memory@.len() == self.capacity
    }
}

/// The top bit of an endpoint address alone tells the direction: with it the endpoint is device to
/// host, and without it the endpoint with the same number is host to device.
pub proof fn law_direction_is_top_bit(number: u8, plain: Direction, marked: Direction)
    requires
        number < 0x80,
        call_ensures(Direction::from_address, (number,), plain),
        call_ensures(Direction::from_address, ((0x80 + number) as u8,), marked),
    ensures
        plain == Direction::Out,
        marked == Direction::In,
        Direction::of_address(number) == Direction::Out,
        Direction::of_address((0x80 + number) as u8) == Direction::In,
{
}

/// The direction is device to host exactly if the top bit of the address is set.
pub proof fn law_direction_by_bit(address: u8, direction: Direction)
    requires
        call_ensures(Direction::from_address, (address,), direction),
    ensures
        direction == Direction::In <==> address & 0x80 != 0,
        direction == Direction::Out <==> address & 0x80 == 0,
        Direction::of_address(address) == direction,
{
    assert(address >= 0x80 <==> address & 0x80 != 0) by (bit_vector);
}

} // verus!
