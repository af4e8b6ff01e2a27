//! An NVMe controller behind a PCI function.
use crate::hw::nvme::cmds::ParseErr;
use crate::hw::nvme::queue::{QueueCreateErr, QueueId, QueueUpdateError};
use vstd::prelude::*;

pub mod admin;
pub mod bits;
pub mod cmds;
pub mod ctrl;
pub mod device;
pub mod laws;
pub mod laws_admin;
pub mod laws_data;
pub mod laws_regs;
pub mod migrate;
pub mod queue;
pub mod regs;
pub mod requests;

verus! {

/// NVMe errors.
#[derive(Clone, Copy, Debug, PartialEq, Eq, Structural)]
pub enum NvmeError {
    /// The requested size of completion queue entries is not supported.
    UnsupportedCompQueueEntrySize,
    /// The requested size of submission queue entries is not supported.
    UnsupportedSubQueueEntrySize,
    /// The requested arbitration mechanism is not supported.
    UnsupportedArbitrationMechanism,
    /// The requested memory page size is not supported.
    UnsupportedMemPageSize,
    /// The requested command set is not supported.
    UnsupportedCommandSet,
    /// There is no such completion queue.
    InvalidCompQueue(QueueId),
    /// There is no such submission queue.
    InvalidSubQueue(QueueId),
    /// The completion queue exists already.
    CompQueueAlreadyExists(QueueId),
    /// The submission queue exists already.
    SubQueueAlreadyExists(QueueId),
    /// The completion queue still serves that many submission queues.
    AssociatedSubQueuesStillExist(QueueId, usize),
    /// A queue could not be created.
    QueueCreateErr(QueueCreateErr),
    /// A queue could not be updated.
    QueueUpdateError(QueueUpdateError),
    /// There are no MSI-X interrupts yet.
    MsixHdlUnavailable,
    /// A command could not be parsed.
    CommandParseErr(ParseErr),
    /// No namespace can be added.
    TooManyNamespaces,
    /// There is no such namespace.
    InvalidNamespace(u32),
    /// Guest memory cannot be accessed.
    MemoryInaccessible,
}

} // verus!
