//! What passes between storage devices and the backends that hold their data.
use crate::common::GuestRegion;
use vstd::prelude::*;

verus! {

/// How a request ended.
#[derive(Clone, Copy, Debug, PartialEq, Eq, Structural)]
pub enum IoResult {
    Success,
    Failure,
    ReadOnly,
    Unsupported,
}

/// What a request asks for. Offsets and lengths are in bytes.
#[derive(Clone, Copy, Debug, PartialEq, Eq, Structural)]
pub enum Operation {
    Read(u64, u64),
    Write(u64, u64),
    Flush,
    Discard(u64, u64),
}

/// A request to a backend, with the guest memory that the data is moved to or
/// from.
#[derive(Debug)]
pub struct Request {
    pub op: Operation,
    pub regions: Vec<GuestRegion>,
}

/// What a backend tells of the disk that it holds.
#[derive(Clone, Copy, Debug, PartialEq, Eq, Structural)]
pub struct DeviceInfo {
    /// Size of a block, in bytes.
    pub block_size: u32,
    /// Size of the disk, in blocks.
    pub total_size: u64,
    /// Whether the disk can be written to.
    pub writable: bool,
}

/// What a device tells the block layer about its queues.
#[derive(Clone, Copy, Debug, PartialEq, Eq, Structural)]
pub enum QueueAction {
    /// The queue exists from now on.
    Associate(u16),
    /// The queue exists no longer.
    Dissociate(u16),
    /// The queue has requests, as many as the hint says if it is not 0.
    Notify(u16, u16),
}

} // verus!
