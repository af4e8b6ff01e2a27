//! Submission and completion queues, and the permits that tie an entry taken
//! off a submission queue to the room for its completion.
use crate::common::{
    le16, lemma_first_run, lemma_put_runs, le32, val32, GuestAddr,
    MemAccessView, MemAccessor, MemCtx, MemView, PAGE_SIZE,
};
use crate::hw::nvme::bits::{
    sqe_decode, CompletionQueueEntry, SubmissionQueueEntry, CQE_SIZE, SQE_SIZE,
};
use crate::hw::nvme::cmds::Completion;
use vstd::prelude::*;

verus! {

/// The identifier of a queue. Submission and completion queues have separate
/// identifier spaces.
pub type QueueId = u16;

/// Tells apart the NVMe controllers of one machine.
#[derive(Clone, Copy, Debug, PartialEq, Eq, Structural)]
pub struct DeviceId(pub u32);

/// The least number of entries of a queue, of which one is never used.
pub const MIN_QUEUE_SIZE: u32 = 2;

/// The greatest number of entries of a queue.
pub const MAX_QUEUE_SIZE: u32 = 0x1_0000;

/// The greatest number of entries of an admin queue.
pub const MAX_ADMIN_QUEUE_SIZE: u32 = 0x1000;

/// The identifier of the admin queues.
pub const ADMIN_QUEUE_ID: QueueId = 0;

/// A number that identifies a queue among those of all controllers.
pub open spec fn spec_devq_id(dev: DeviceId, queue: QueueId) -> u64 {
    (dev.0 * 0x1_0000 + queue) as u64
}

/// A number that identifies a queue among those of all controllers.
pub fn devq_id(dev: DeviceId, queue: QueueId) -> (r: u64)
    ensures
        r == spec_devq_id(dev, queue),
{
    dev.0 as u64 * 0x1_0000 + queue as u64
}

/// Queues of different controllers, and different queues of one controller,
/// have different numbers.
pub proof fn law_devq_id_unique(d1: DeviceId, q1: QueueId, d2: DeviceId, q2: QueueId)
    ensures
        spec_devq_id(d1, q1) == spec_devq_id(d2, q2) <==> d1 == d2 && q1 == q2,
{
}

/// The index `off` places after `idx` in a ring of `size` entries.
pub open spec fn spec_wrap_add(size: u32, idx: u16, off: u16) -> u16 {
    if idx + off >= size {
        (idx + off - size) as u16
    } else {
        (idx + off) as u16
    }
}

/// The index `off` places before `idx` in a ring of `size` entries; also the
/// number of places from `off` up to `idx`.
pub open spec fn spec_wrap_sub(size: u32, idx: u16, off: u16) -> u16 {
    if off > idx {
        (idx + size - off) as u16
    } else {
        (idx - off) as u16
    }
}

/// In a ring, going forward and going back undo each other, and both are
/// arithmetic modulo the size of the ring.
pub proof fn law_wrap(size: u32, idx: u16, off: u16)
    requires
        idx < size <= MAX_QUEUE_SIZE,
        off < size,
    ensures
        spec_wrap_add(size, idx, off) < size,
        spec_wrap_sub(size, idx, off) < size,
        spec_wrap_sub(size, spec_wrap_add(size, idx, off), off) == idx,
        spec_wrap_add(size, spec_wrap_sub(size, idx, off), off) == idx,
        spec_wrap_sub(size, spec_wrap_add(size, idx, off), idx) == off,
        spec_wrap_add(size, idx, off) == (idx + off) % (size as int),
        spec_wrap_sub(size, idx, off) == (idx - off) % (size as int),
{
    let n = size as int;
    if idx + off >= n {
        vstd::arithmetic::div_mod::lemma_fundamental_div_mod_converse(idx + off, n, 1, idx + off - n);
    } else {
        vstd::arithmetic::div_mod::lemma_small_mod((idx + off) as nat, n as nat);
    }
    if off > idx {
        vstd::arithmetic::div_mod::lemma_fundamental_div_mod_converse(idx - off, n, -1, idx - off + n);
    } else {
        vstd::arithmetic::div_mod::lemma_small_mod((idx - off) as nat, n as nat);
    }
}

/// The index `off` places after `idx` in a ring of `size` entries.
pub fn wrap_add(size: u32, idx: u16, off: u16) -> (r: u16)
    requires
        idx < size <= MAX_QUEUE_SIZE,
        off < size,
    ensures
        r == spec_wrap_add(size, idx, off),
        r < size,
{
    let res: u32 = idx as u32 + off as u32;
    if res >= size {
        (res - size) as u16
    } else {
        res as u16
    }
}

/// The index `off` places before `idx` in a ring of `size` entries.
pub fn wrap_sub(size: u32, idx: u16, off: u16) -> (r: u16)
    requires
        idx < size <= MAX_QUEUE_SIZE,
        off < size,
    ensures
        r == spec_wrap_sub(size, idx, off),
        r < size,
{
    if off > idx {
        ((idx as u32 + size) - off as u32) as u16
    } else {
        idx - off
    }
}

/// Errors of queue creation.
#[derive(Clone, Copy, Debug, PartialEq, Eq, Structural)]
pub enum QueueCreateErr {
    /// The base address is not that of a page.
    InvalidBaseAddr,
    /// The number of entries is not allowed.
    InvalidSize,
    /// The completion queue already serves a submission queue of that ID.
    SubQueueIdAlreadyExists(QueueId),
}

/// Errors of moving the head or the tail of a queue.
#[derive(Clone, Copy, Debug, PartialEq, Eq, Structural)]
pub enum QueueUpdateError {
    /// The index lies outside the queue.
    InvalidEntry,
    /// More entries were pushed than there was room for, or more were popped
    /// than there were.
    TooManyEntries,
}

/// What a queue is created from.
#[derive(Clone, Copy, Debug)]
pub struct CreateParams {
    pub id: QueueId,
    pub device_id: DeviceId,
    pub base: GuestAddr,
    pub size: u32,
}

/// Limits on the data transfers of a submission queue.
#[derive(Clone, Copy, Debug, Default)]
pub struct TransferParams {
    pub lba_data_size: u64,
    pub max_data_tranfser_size: u64,
}

/// Where in guest memory the shadow doorbells and the event indices are.
#[derive(Clone, Copy, Debug)]
pub struct DoorbellBuffer {
    pub shadow: GuestAddr,
    pub eventidx: GuestAddr,
}

impl DoorbellBuffer {
    /// The place in both buffers of the words for one queue: the words of the
    /// submission queue `n` and of the completion queue `n` follow each other.
    pub open spec fn for_queue(self, is_cq: bool, qid: QueueId) -> DoorbellBuffer {
        let off = 4 * (2 * qid + if is_cq {
            1int
        } else {
            0
        });
        DoorbellBuffer {
            shadow: self.shadow.spec_advance(off),
            eventidx: self.eventidx.spec_advance(off),
        }
    }

    /// The place in both buffers of the words for one queue.
    pub fn offset_for_queue(&self, is_cq: bool, qid: QueueId) -> (r: DoorbellBuffer)
        ensures
            r == self.for_queue(is_cq, qid),
    {
        let idx: u64 = qid as u64 * 2 + if is_cq {
            1
        } else {
            0
        };
        DoorbellBuffer { shadow: self.shadow.advance(idx * 4), eventidx: self.eventidx.advance(idx * 4) }
    }
}

/// No two queues share a word of the doorbell buffers.
pub proof fn law_doorbells_disjoint(b: DoorbellBuffer, c1: bool, q1: QueueId, c2: bool, q2: QueueId)
    requires
        c1 != c2 || q1 != q2,
    ensures
        b.shadow.0 + 0x8_0000 <= u64::MAX ==> {
            let x = b.for_queue(c1, q1).shadow.0;
            let y = b.for_queue(c2, q2).shadow.0;
            x + 4 <= y || y + 4 <= x
        },
        b.eventidx.0 + 0x8_0000 <= u64::MAX ==> {
            let x = b.for_queue(c1, q1).eventidx.0;
            let y = b.for_queue(c2, q2).eventidx.0;
            x + 4 <= y || y + 4 <= x
        },
{
}

/// Whether a queue may be created with these parameters.
pub open spec fn spec_validate(is_admin_queue: bool, base: GuestAddr, size: u32) -> Result<
    (),
    QueueCreateErr,
> {
    if base.0 % PAGE_SIZE != 0 {
        Err(QueueCreateErr::InvalidBaseAddr)
    } else if size < MIN_QUEUE_SIZE || size > if is_admin_queue {
        MAX_ADMIN_QUEUE_SIZE
    } else {
        MAX_QUEUE_SIZE
    } {
        Err(QueueCreateErr::InvalidSize)
    } else {
        Ok(())
    }
}

/// Checks whether a queue may be created with these parameters.
pub fn validate(is_admin_queue: bool, base: GuestAddr, size: u32) -> (r: Result<(), QueueCreateErr>)
    ensures
        r == spec_validate(is_admin_queue, base, size),
{
    if base.0 % PAGE_SIZE != 0 {
        return Err(QueueCreateErr::InvalidBaseAddr);
    }
    let max: u32 = if is_admin_queue {
        MAX_ADMIN_QUEUE_SIZE
    } else {
        MAX_QUEUE_SIZE
    };
    if size < MIN_QUEUE_SIZE || size > max {
        return Err(QueueCreateErr::InvalidSize);
    }
    Ok(())
}

/// The pointers of a queue.
#[derive(Clone, Copy, Debug)]
pub struct QueueState {
    /// Number of entries.
    pub size: u32,
    /// Index of the next entry to be consumed.
    pub head: u16,
    /// Index of the next entry to be filled.
    pub tail: u16,
    /// The words of this queue in the doorbell buffers.
    pub db_buf: Option<DoorbellBuffer>,
}

impl QueueState {
    /// Both pointers lie within a queue of an allowed size.
    pub open spec fn wf(self) -> bool {
        &&& MIN_QUEUE_SIZE <= self.size <= MAX_QUEUE_SIZE
        &&& self.head < self.size
        &&& self.tail < self.size
    }

    /// A queue without entries.
    pub open spec fn spec_new(size: u32) -> QueueState {
        QueueState { size, head: 0, tail: 0, db_buf: None }
    }

    /// How many entries are occupied.
    pub open spec fn occupied(self) -> u16 {
        spec_wrap_sub(self.size, self.tail, self.head)
    }

    /// Whether no entry is occupied.
    pub open spec fn empty(self) -> bool {
        self.head == self.tail
    }

    /// Whether the head is one place after the tail.
    pub open spec fn full(self) -> bool {
        spec_wrap_add(self.size, self.tail, 1) == self.head
    }

    /// A queue without entries.
    pub fn new(size: u32) -> (r: QueueState)
        requires
            MIN_QUEUE_SIZE <= size <= MAX_QUEUE_SIZE,
        ensures
            r == Self::spec_new(size),
            r.wf(),
    {
        QueueState { size, head: 0, tail: 0, db_buf: None }
    }

    /// Whether no entry is occupied.
    pub fn is_empty(&self) -> (r: bool)
        ensures
            r == self.empty(),
    {
        self.head == self.tail
    }

    /// Whether all usable entries are occupied.
    pub fn is_full(&self) -> (r: bool)
        requires
            self.wf(),
        ensures
            r == self.full(),
    {
        (self.head > 0 && self.tail == (self.head - 1)) || (self.head == 0 && self.tail == (self.size
            - 1) as u16)
    }

    /// How many entries are occupied.
    pub fn num_occupied(&self) -> (r: u16)
        requires
            self.wf(),
        ensures
            r == self.occupied(),
            r < self.size,
    {
        wrap_sub(self.size, self.tail, self.head)
    }
}

/// A queue is empty exactly if nothing is occupied, and full exactly if all but
/// one of its entries are; one entry always stays unused.
pub proof fn law_queue_occupancy(q: QueueState)
    requires
        q.wf(),
    ensures
        q.empty() <==> q.occupied() == 0,
        q.full() <==> q.occupied() == q.size - 1,
        q.occupied() <= q.size - 1,
        !(q.empty() && q.full()),
{
}

// ---------------------------------------------------------------------------
// Completion queues
// ---------------------------------------------------------------------------

/// The state of a completion queue.
#[derive(Clone, Copy, Debug)]
pub struct CompQueueState {
    pub queue: QueueState,
    /// Number of entries that can still be promised to a command.
    pub avail: u16,
    /// The phase tag of new entries, which flips each time the tail wraps.
    pub phase: bool,
}

impl CompQueueState {
    /// Entries are promised only while there is room for them.
    pub open spec fn wf(self) -> bool {
        &&& self.queue.wf()
        &&& self.avail + self.queue.occupied() <= self.queue.size - 1
    }

    /// How many entries are promised to commands and not filled yet.
    pub open spec fn outstanding(self) -> int {
        self.queue.size - 1 - self.avail - self.queue.occupied()
    }

    /// A queue without entries, with everything but one entry to promise.
    pub open spec fn spec_new(size: u32) -> CompQueueState {
        CompQueueState {
            queue: QueueState::spec_new(size),
            avail: (size - 1) as u16,
            phase: true,
        }
    }

    /// The tail moved forward by one.
    pub open spec fn pushed(self) -> CompQueueState {
        let tail = spec_wrap_add(self.queue.size, self.queue.tail, 1);
        CompQueueState {
            queue: QueueState { tail, ..self.queue },
            phase: if tail < self.queue.tail {
                !self.phase
            } else {
                self.phase
            },
            ..self
        }
    }

    /// The head moved forward to `idx`, or why it cannot be.
    pub open spec fn popped_to(self, idx: u16) -> Result<CompQueueState, QueueUpdateError> {
        let count = spec_wrap_sub(self.queue.size, idx, self.queue.head);
        if idx >= self.queue.size {
            Err(QueueUpdateError::InvalidEntry)
        } else if count > self.queue.occupied() {
            Err(QueueUpdateError::TooManyEntries)
        } else {
            Ok(
                CompQueueState {
                    queue: QueueState { head: idx, ..self.queue },
                    avail: (self.avail + count) as u16,
                    ..self
                },
            )
        }
    }

    /// The state after a look at the shadow doorbell, if there is one.
    pub open spec fn db_read(self, mem: MemView) -> CompQueueState {
        match self.queue.db_buf {
            Some(b) => if mem.covers(b.shadow, 4) {
                match self.popped_to((val32(mem.at(b.shadow, 4)) % 0x1_0000) as u16) {
                    Ok(s) => s,
                    Err(_) => self,
                }
            } else {
                self
            },
            None => self,
        }
    }

    /// Memory after the event index was set to the tail.
    pub open spec fn db_write(self, mem: MemView) -> MemView {
        match self.queue.db_buf {
            Some(b) => mem.put(b.eventidx, le16(self.queue.tail)),
            None => mem,
        }
    }

    /// Memory after the shadow doorbell was set to the head.
    pub open spec fn db_write_shadow(self, mem: MemView) -> MemView {
        match self.queue.db_buf {
            Some(b) => mem.put(b.shadow, le16(self.queue.head)),
            None => mem,
        }
    }

    /// A queue without entries.
    pub fn new(size: u32) -> (r: CompQueueState)
        requires
            MIN_QUEUE_SIZE <= size <= MAX_QUEUE_SIZE,
        ensures
            r == Self::spec_new(size),
            r.wf(),
            r.outstanding() == 0,
    {
        CompQueueState { queue: QueueState::new(size), avail: (size - 1) as u16, phase: true }
    }

    /// Moves the tail forward by one, unless the queue is full, and returns the
    /// index and the phase tag of the entry that it pointed to.
    pub fn push_tail(&mut self) -> (r: Option<(u16, bool)>)
        requires
            old(self).queue.wf(),
        ensures
            r is None <==> old(self).queue.full(),
            r is None ==> *final(self) == *old(self),
            r matches Some(p) ==> p.0 == old(self).queue.tail && p.1 == old(self).phase && *final(self) == old(self).pushed(),
            final(self).queue.wf(),
    {
        if self.queue.is_full() {
            return None;
        }
        let tail: u16 = self.queue.tail;
        let phase: bool = self.phase;
        self.queue.tail = wrap_add(self.queue.size, tail, 1);
        if self.queue.tail < tail {
            self.phase = !self.phase;
        }
        Some((tail, phase))
    }

    /// Moves the head forward to `idx`, which makes room for as many entries.
    pub fn pop_head_to(&mut self, idx: u16) -> (r: Result<(), QueueUpdateError>)
        requires
            old(self).wf(),
        ensures
            final(self).wf(),
            final(self).outstanding() == old(self).outstanding(),
            match old(self).popped_to(idx) {
                Ok(s) => r is Ok && *final(self) == s,
                Err(e) => r == Err::<(), QueueUpdateError>(e) && *final(self) == *old(self),
            },
    {
        if idx as u32 >= self.queue.size {
            return Err(QueueUpdateError::InvalidEntry);
        }
        let pop_count: u16 = wrap_sub(self.queue.size, idx, self.queue.head);
        if pop_count > self.queue.num_occupied() {
            return Err(QueueUpdateError::TooManyEntries);
        }
        self.queue.head = idx;
        self.avail = self.avail + pop_count;
        Ok(())
    }

    /// Whether an entry can be promised.
    pub fn has_avail(&self) -> (r: bool)
        ensures
            r == (self.avail != 0),
    {
        self.avail != 0
    }

    /// Takes back a promise that will not be used.
    pub fn release_avail(&mut self)
        requires
            old(self).wf(),
            old(self).outstanding() > 0,
        ensures
            *final(self) == (CompQueueState { avail: (old(self).avail + 1) as u16, ..*old(self) }),
            final(self).wf(),
            final(self).outstanding() == old(self).outstanding() - 1,
    {
        self.avail = self.avail + 1;
    }

    /// Sets the event index to the tail, so that the guest need not ring the
    /// doorbell for what the queue will find in the shadow anyway.
    pub fn db_buf_write(&self, mem: &mut MemCtx)
        ensures
            final(mem)@ == self.db_write(old(mem)@),
    {
        if let Some(db_buf) = self.queue.db_buf {
            let _stored: bool = mem.write_u16(db_buf.eventidx, self.queue.tail);
        }
    }

    /// Sets the shadow doorbell to the head.
    pub fn db_buf_write_shadow(&self, mem: &mut MemCtx)
        ensures
            final(mem)@ == self.db_write_shadow(old(mem)@),
    {
        if let Some(db_buf) = self.queue.db_buf {
            let _stored: bool = mem.write_u16(db_buf.shadow, self.queue.head);
        }
    }

    /// Moves the head to where the shadow doorbell says, if that is possible.
    pub fn db_buf_read(&mut self, mem: &MemCtx)
        requires
            old(self).wf(),
        ensures
            *final(self) == old(self).db_read(mem@),
            final(self).wf(),
            final(self).outstanding() == old(self).outstanding(),
    {
        if let Some(db_buf) = self.queue.db_buf {
            if let Some(new_head) = mem.read_u32(db_buf.shadow) {
                let _moved: Result<(), QueueUpdateError> = self.pop_head_to(
                    (new_head % 0x1_0000) as u16,
                );
            }
        }
    }
}

/// The phase tag flips exactly when the tail wraps around to the first entry.
pub proof fn law_phase_flips_on_wrap(s: CompQueueState)
    requires
        s.wf(),
    ensures
        s.pushed().phase != s.phase <==> s.pushed().queue.tail == 0,
{
}

/// A promised entry always finds room: a push that uses up a promise neither
/// meets a full queue nor takes away from what can be promised.
pub proof fn law_permit_has_room(s: CompQueueState)
    requires
        s.wf(),
        s.outstanding() > 0,
    ensures
        !s.queue.full(),
        s.pushed().wf(),
        s.pushed().avail == s.avail,
        s.pushed().outstanding() == s.outstanding() - 1,
        s.pushed().queue.occupied() == s.queue.occupied() + 1,
{
}

/// What a completion queue holds.
#[verifier::ext_equal]
pub struct CompQueueView {
    pub id: QueueId,
    pub device_id: DeviceId,
    pub iv: u16,
    pub base: GuestAddr,
    pub serial: u64,
    pub state: CompQueueState,
    pub corked: Seq<QueueId>,
    pub sqs: Seq<QueueId>,
}

/// A completion queue.
pub struct CompQueue {
    pub id: QueueId,
    /// The controller that owns the queue.
    pub device_id: DeviceId,
    /// Interrupt vector that tells the guest of new entries.
    pub iv: u16,
    /// Where the entries are.
    pub base: GuestAddr,
    /// Tells this queue from others that had the same ID before.
    pub serial: u64,
    pub state: CompQueueState,
    /// Submission queues that found no entry to be promised.
    pub corked: Vec<QueueId>,
    /// Submission queues that this queue serves.
    pub sqs: Vec<QueueId>,
}

impl View for CompQueue {
    type V = CompQueueView;

    open spec fn view(&self) -> CompQueueView {
        CompQueueView {
            id: self.id,
            device_id: self.device_id,
            iv: self.iv,
            base: self.base,
            serial: self.serial,
            state: self.state,
            corked: self.corked@,
            sqs: self.sqs@,
        }
    }
}

/// `s` with `id` added, unless it is in it already.
pub open spec fn with_id(s: Seq<QueueId>, id: QueueId) -> Seq<QueueId> {
    if s.contains(id) {
        s
    } else {
        s.push(id)
    }
}

/// `s` without `id`.
pub open spec fn without_id(s: Seq<QueueId>, id: QueueId) -> Seq<QueueId>
    decreases s.len(),
{
    if s.len() == 0 {
        s
    } else if s.last() == id {
        without_id(s.drop_last(), id)
    } else {
        without_id(s.drop_last(), id).push(s.last())
    }
}

/// The state of a completion queue as it is moved to another host.
#[derive(Clone, Copy, Debug, PartialEq, Eq, Structural)]
pub struct NvmeCompQueueV1 {
    pub id: u16,
    pub size: u32,
    pub head: u16,
    pub tail: u16,
    pub avail: u16,
    pub phase: bool,
    pub base: u64,
    pub iv: u16,
}

/// The state of a submission queue as it is moved to another host.
#[derive(Clone, Copy, Debug, PartialEq, Eq, Structural)]
pub struct NvmeSubQueueV1 {
    pub id: u16,
    pub size: u32,
    pub head: u16,
    pub tail: u16,
    pub base: u64,
    pub cq_id: u16,
}

impl NvmeCompQueueV1 {
    /// Whether a queue could have been in this state.
    pub open spec fn consistent(self) -> bool {
        self.with(None).wf()
    }

    /// Whether a queue could have been in this state.
    pub fn is_consistent(&self) -> (r: bool)
        ensures
            r == self.consistent(),
    {
        if self.size < MIN_QUEUE_SIZE || self.size > MAX_QUEUE_SIZE || self.head as u32 >= self.size
            || self.tail as u32 >= self.size {
            return false;
        }
        self.avail as u32 + wrap_sub(self.size, self.tail, self.head) as u32 <= self.size - 1
    }

    /// The queue state that this describes.
    pub open spec fn with(self, db_buf: Option<DoorbellBuffer>) -> CompQueueState {
        CompQueueState {
            queue: QueueState { size: self.size, head: self.head, tail: self.tail, db_buf },
            avail: self.avail,
            phase: self.phase,
        }
    }
}

impl NvmeSubQueueV1 {
    /// Whether a queue could have been in this state.
    pub open spec fn consistent(self) -> bool {
        (QueueState { size: self.size, head: self.head, tail: self.tail, db_buf: None }).wf()
    }

    /// Whether a queue could have been in this state.
    pub fn is_consistent(&self) -> (r: bool)
        ensures
            r == self.consistent(),
    {
        MIN_QUEUE_SIZE <= self.size && self.size <= MAX_QUEUE_SIZE && (self.head as u32) < self.size
            && (self.tail as u32) < self.size
    }
}

impl CompQueueView {
    /// The invariant of completion queues.
    pub open spec fn wf(self) -> bool {
        &&& self.state.wf()
        &&& self.corked.no_duplicates()
        &&& self.sqs.no_duplicates()
    }

    /// A new queue.
    pub open spec fn spec_new(params: CreateParams, iv: u16) -> CompQueueView {
        CompQueueView {
            id: params.id,
            device_id: params.device_id,
            iv,
            base: params.base,
            serial: 0,
            state: CompQueueState::spec_new(params.size),
            corked: Seq::empty(),
            sqs: Seq::empty(),
        }
    }

    /// The queue after a look at the shadow doorbell for want of room.
    pub open spec fn refreshed(self, mem: MemView) -> CompQueueView {
        if self.state.avail == 0 {
            CompQueueView { state: self.state.db_read(mem), ..self }
        } else {
            self
        }
    }

    /// The queue after an attempt of the submission queue `sq` to have an entry
    /// promised, and whether it was promised.
    pub open spec fn reserved(self, sq: QueueId, mem: MemView) -> (CompQueueView, bool) {
        let s = self.refreshed(mem);
        if s.state.avail == 0 {
            (CompQueueView { corked: with_id(s.corked, sq), ..s }, false)
        } else {
            (
                CompQueueView {
                    state: CompQueueState { avail: (s.state.avail - 1) as u16, ..s.state },
                    ..s
                },
                true,
            )
        }
    }

    /// The queue after one promise was taken back.
    pub open spec fn released(self) -> CompQueueView {
        CompQueueView {
            state: CompQueueState { avail: (self.state.avail + 1) as u16, ..self.state },
            ..self
        }
    }

    /// The address of entry `idx`.
    pub open spec fn entry_addr(self, idx: u16) -> GuestAddr {
        self.base.spec_advance(idx * 16)
    }

    /// The queue and memory after the completion of command `cid` was added.
    pub open spec fn spec_push(
        self,
        comp: Completion,
        cid: u16,
        sqid: QueueId,
        sqhd: u16,
        acc: MemAccessView,
    ) -> (CompQueueView, MemAccessView) {
        let cqe = CompletionQueueEntry {
            sqid,
            sqhd,
            ..CompletionQueueEntry::spec_new(comp, cid)
        }.with_phase(self.state.phase);
        let pushed = self.state.pushed();
        if acc.accessible {
            let mem = acc.mem.put(self.entry_addr(self.state.queue.tail), cqe.encode());
            let state = pushed.db_read(mem);
            (
                CompQueueView { state, ..self },
                MemAccessView { mem: state.db_write(mem), ..acc },
            )
        } else {
            (CompQueueView { state: pushed, ..self }, acc)
        }
    }

    /// The queue with the given doorbell buffers.
    pub open spec fn with_db_buf(self, db_buf: Option<DoorbellBuffer>) -> CompQueueView {
        let place = match db_buf {
            Some(b) => Some(b.for_queue(true, self.id)),
            None => None,
        };
        CompQueueView {
            state: CompQueueState {
                queue: QueueState { db_buf: place, ..self.state.queue },
                ..self.state
            },
            ..self
        }
    }

    /// Memory after the doorbell buffers were set: the shadow doorbell tells
    /// the head, unless the queue is being brought over from another host.
    pub open spec fn db_buf_synced(
        self,
        db_buf: Option<DoorbellBuffer>,
        is_import: bool,
        acc: MemAccessView,
    ) -> MemAccessView {
        match db_buf {
            Some(b) => if !is_import && acc.accessible {
                MemAccessView {
                    mem: acc.mem.put(
                        b.for_queue(true, self.id).shadow,
                        le32(self.state.queue.head as u32),
                    ),
                    ..acc
                }
            } else {
                acc
            },
            None => acc,
        }
    }

    /// The state to be moved to another host.
    pub open spec fn spec_export(self) -> NvmeCompQueueV1 {
        NvmeCompQueueV1 {
            id: self.id,
            size: self.state.queue.size,
            head: self.state.queue.head,
            tail: self.state.queue.tail,
            avail: self.state.avail,
            phase: self.state.phase,
            base: self.base.0,
            iv: self.iv,
        }
    }

    /// The queue in the state brought over from another host.
    pub open spec fn imported(self, s: NvmeCompQueueV1) -> CompQueueView {
        CompQueueView { state: s.with(self.state.queue.db_buf), ..self }
    }
}

/// Whether `v` holds `id`.
pub fn id_in(v: &Vec<QueueId>, id: QueueId) -> (r: bool)
    ensures
        r == v@.contains(id),
{
    let mut i: usize = 0;
    while i < v.len()
        invariant
            i <= v@.len(),
            forall|j: int| 0 <= j < i ==> v@[j] != id,
        decreases v@.len() - i,
    {
        if v[i] == id {
            assert(v@[i as int] == id);
            return true;
        }
        i += 1;
    }
    false
}

/// Removes `id` from `v`.
pub fn remove_id(v: &mut Vec<QueueId>, id: QueueId)
    requires
        old(v)@.no_duplicates(),
    ensures
        final(v)@ == without_id(old(v)@, id),
        final(v)@.no_duplicates(),
        !final(v)@.contains(id),
{
    let ghost start = v@;
    let mut out: Vec<QueueId> = Vec::new();
    let mut i: usize = 0;
    while i < v.len()
        invariant
            i <= v@.len(),
            v@ == start,
            out@ == without_id(start.take(i as int), id),
        decreases v@.len() - i,
    {
        assert(start.take(i + 1).drop_last() =~= start.take(i as int));
        if v[i] != id {
            out.push(v[i]);
        }
        i += 1;
    }
    assert(start.take(start.len() as int) =~= start);
    proof {
        lemma_without_id(start, id);
    }
    *v = out;
}

/// Removing an identifier leaves no duplicates and not that identifier.
pub proof fn lemma_without_id(s: Seq<QueueId>, id: QueueId)
    requires
        s.no_duplicates(),
    ensures
        without_id(s, id).no_duplicates(),
        forall|x: QueueId| without_id(s, id).contains(x) <==> s.contains(x) && x != id,
        without_id(s, id).len() == s.len() - if s.contains(id) {
            1int
        } else {
            0
        },
    decreases s.len(),
{
    if s.len() > 0 {
        let t = s.drop_last();
        assert(t.no_duplicates());
        lemma_without_id(t, id);
        let f = without_id(t, id);
        assert(!t.contains(s.last()));
        assert forall|x: QueueId| s.contains(x) <==> (t.contains(x) || x == s.last()) by {
            if s.contains(x) {
                let i = choose|i: int| 0 <= i < s.len() && s[i] == x;
                if i < s.len() - 1 {
                    assert(t[i] == x);
                }
            }
            if t.contains(x) {
                let i = choose|i: int| 0 <= i < t.len() && t[i] == x;
                assert(s[i] == x);
            }
        }
        if s.last() != id {
            assert(!f.contains(s.last()));
            assert forall|x: QueueId| f.push(s.last()).contains(x) <==> (f.contains(x) || x
                == s.last()) by {
                if f.contains(x) {
                    let i = choose|i: int| 0 <= i < f.len() && f[i] == x;
                    assert(f.push(s.last())[i] == x);
                }
                assert(f.push(s.last())[f.len() as int] == s.last());
            }
        }
    }
}

impl CompQueue {
    /// The invariant of completion queues.
    pub open spec fn wf(&self) -> bool {
        self@.wf()
    }

    /// Creates a completion queue whose entries are at the given address.
    pub fn new(params: CreateParams, iv: u16) -> (r: Result<CompQueue, QueueCreateErr>)
        ensures
            match spec_validate(params.id == ADMIN_QUEUE_ID, params.base, params.size) {
                Ok(_) => r matches Ok(q) && q@ == CompQueueView::spec_new(params, iv) && q.wf()
                    && q@.state.outstanding() == 0,
                Err(e) => r matches Err(e2) && e2 == e,
            },
    {
        match validate(params.id == ADMIN_QUEUE_ID, params.base, params.size) {
            Err(e) => Err(e),
            Ok(()) => {
                let q: CompQueue = CompQueue {
                    id: params.id,
                    device_id: params.device_id,
                    iv,
                    base: params.base,
                    serial: 0,
                    state: CompQueueState::new(params.size),
                    corked: Vec::new(),
                    sqs: Vec::new(),
                };
                Ok(q)
            },
        }
    }

    /// Moves the head forward to `idx`; for the admin queue, the shadow
    /// doorbell follows.
    pub fn notify_head(&mut self, idx: u16, acc: &mut MemAccessor) -> (r: Result<
        (),
        QueueUpdateError,
    >)
        requires
            old(self).wf(),
        ensures
            final(self).wf(),
            final(self)@.state.outstanding() == old(self)@.state.outstanding(),
            match old(self)@.state.popped_to(idx) {
                Ok(s) => r is Ok && final(self)@ == (CompQueueView { state: s, ..old(self)@ })
                    && final(acc)@ == (if old(self).id == ADMIN_QUEUE_ID && old(acc)@.accessible {
                    MemAccessView { mem: s.db_write_shadow(old(acc)@.mem), ..old(acc)@ }
                } else {
                    old(acc)@
                }),
                Err(e) => r == Err::<(), QueueUpdateError>(e) && final(self)@ == old(self)@
                    && final(acc)@ == old(acc)@,
            },
    {
        match self.state.pop_head_to(idx) {
            Err(e) => Err(e),
            Ok(()) => {
                if self.id == ADMIN_QUEUE_ID {
                    if acc.accessible {
                        self.state.db_buf_write_shadow(&mut acc.mem);
                    }
                }
                Ok(())
            },
        }
    }

    /// The interrupt vector to be fired, if the queue is not empty.
    pub fn fire_interrupt(&self) -> (r: Option<u16>)
        ensures
            r == (if self@.state.queue.empty() {
                None::<u16>
            } else {
                Some(self.iv)
            }),
    {
        if self.state.queue.is_empty() {
            None
        } else {
            Some(self.iv)
        }
    }

    /// The submission queues that found no entry to be promised since this was
    /// last asked, if there are any.
    pub fn kick(&mut self) -> (r: Option<Vec<QueueId>>)
        requires
            old(self).wf(),
        ensures
            final(self)@ == (CompQueueView { corked: Seq::empty(), ..old(self)@ }),
            final(self).wf(),
            r is None <==> old(self)@.corked.len() == 0,
            r matches Some(v) ==> v@ == old(self)@.corked && v@.no_duplicates(),
    {
        if self.corked.len() == 0 {
            assert(self.corked@ =~= Seq::<QueueId>::empty());
            None
        } else {
            let mut out: Vec<QueueId> = Vec::new();
            std::mem::swap(&mut out, &mut self.corked);
            Some(out)
        }
    }

    /// The identifier of the queue.
    pub fn id(&self) -> (r: QueueId)
        ensures
            r == self@.id,
    {
        self.id
    }

    /// The number of submission queues that this queue serves.
    pub fn associated_sqs(&self) -> (r: usize)
        ensures
            r == self@.sqs.len(),
    {
        self.sqs.len()
    }

    /// A number that identifies this queue among those of all controllers.
    pub fn devq_id(&self) -> (r: u64)
        ensures
            r == spec_devq_id(self@.device_id, self@.id),
    {
        devq_id(self.device_id, self.id)
    }

    /// Has an entry promised to `sq`. If none is left, the shadow doorbell is
    /// looked at first; if none is left then, `sq` is remembered.
    pub fn reserve_entry(&mut self, sq: &SubQueue, mem: &MemCtx) -> (r: Option<ProtoPermit>)
        requires
            old(self).wf(),
        ensures
            final(self).wf(),
            ({
                let (v, got) = old(self)@.reserved(sq.id, mem@);
                &&& final(self)@ == v
                &&& r == if got {
                    Some(ProtoPermit::spec_new(old(self)@, *sq))
                } else {
                    None
                }
                &&& final(self)@.state.outstanding() == old(self)@.state.outstanding() + if got {
                    1int
                } else {
                    0
                }
            }),
    {
        if !self.state.has_avail() {
            self.state.db_buf_read(mem);
        }
        if self.state.avail > 0 {
            self.state.avail = self.state.avail - 1;
            Some(ProtoPermit::new(self, sq))
        } else {
            self.record_corked(sq.id);
            None
        }
    }

    /// Remembers that the submission queue `sq` found no entry.
    pub fn record_corked(&mut self, sq: QueueId)
        requires
            old(self)@.corked.no_duplicates(),
        ensures
            final(self)@ == (CompQueueView { corked: with_id(old(self)@.corked, sq), ..old(self)@ }),
            final(self)@.corked.no_duplicates(),
    {
        if !id_in(&self.corked, sq) {
            self.corked.push(sq);
        }
    }

    /// Adds the completion of command `cid` of `sq`, for which an entry was
    /// promised. The entry first appears with the opposite phase tag, so that
    /// the guest takes notice of it only once all of it is there.
    pub fn push(&mut self, comp: Completion, cid: u16, sq: &SubQueue, acc: &mut MemAccessor)
        requires
            old(self).wf(),
            old(self)@.state.outstanding() > 0,
        ensures
            (final(self)@, final(acc)@) == old(self)@.spec_push(
                comp,
                cid,
                sq.id,
                sq.state.head,
                old(acc)@,
            ),
            final(self).wf(),
            final(self)@.state.outstanding() == old(self)@.state.outstanding() - 1,
    {
        let mut cqe: CompletionQueueEntry = CompletionQueueEntry::new(comp, cid);
        sq.annotate_completion(&mut cqe);
        proof {
            law_permit_has_room(self.state);
        }
        let addr: GuestAddr = self.base.advance(self.state.queue.tail as u64 * CQE_SIZE as u64);
        let ghost before = self@;
        if let Some((_idx, phase)) = self.state.push_tail() {
            if acc.accessible {
                let ghost bare = cqe;
                cqe.set_phase(!phase);
                let first: Vec<u8> = cqe.to_bytes();
                let _hidden: bool = acc.mem.write_bytes(addr, &first);
                cqe.set_phase(phase);
                let second: Vec<u8> = cqe.to_bytes();
                let ghost m0 = old(acc)@.mem;
                let _shown: bool = acc.mem.write_bytes(addr, &second);
                proof {
                    crate::hw::nvme::bits::law_phase_keeps_status(bare, !phase, phase);
                    lemma_put_put(m0, addr, first@, second@);
                }
                self.state.db_buf_read(&acc.mem);
                self.state.db_buf_write(&mut acc.mem);
            }
        }
    }

    /// Sets or clears the doorbell buffers. Unless the queue is being brought
    /// over from another host, the shadow doorbell is set to the head.
    pub fn set_db_buf(&mut self, db_buf: Option<DoorbellBuffer>, is_import: bool, acc: &mut MemAccessor)
        ensures
            final(self)@ == old(self)@.with_db_buf(db_buf),
            final(acc)@ == old(self)@.db_buf_synced(db_buf, is_import, old(acc)@),
            old(self).wf() ==> final(self).wf(),
    {
        self.state.queue.db_buf = match db_buf {
            Some(b) => Some(b.offset_for_queue(true, self.id)),
            None => None,
        };
        if !is_import && acc.accessible {
            if let Some(b) = self.state.queue.db_buf {
                let _stored: bool = acc.mem.write_u32(b.shadow, self.state.queue.head as u32);
            }
        }
    }

    /// The state to be moved to another host.
    pub fn export(&self) -> (r: NvmeCompQueueV1)
        ensures
            r == self@.spec_export(),
    {
        NvmeCompQueueV1 {
            id: self.id,
            size: self.state.queue.size,
            head: self.state.queue.head,
            tail: self.state.queue.tail,
            avail: self.state.avail,
            phase: self.state.phase,
            base: self.base.0,
            iv: self.iv,
        }
    }

    /// Takes over the state brought from another host. What the queue was
    /// created with must agree with it.
    pub fn import(&mut self, state: NvmeCompQueueV1)
        requires
            old(self)@.id == state.id,
            old(self)@.iv == state.iv,
            old(self)@.base.0 == state.base,
            old(self)@.state.queue.size == state.size,
        ensures
            final(self)@ == old(self)@.imported(state),
            old(self).wf() && state.consistent() ==> final(self).wf(),
    {
        self.state.queue.head = state.head;
        self.state.queue.tail = state.tail;
        self.state.avail = state.avail;
        self.state.phase = state.phase;
    }
}

/// Of two writes of the same length to the same place, the second one counts.
pub proof fn lemma_put_put(m: MemView, addr: GuestAddr, a: Seq<u8>, b: Seq<u8>)
    requires
        a.len() == b.len(),
    ensures
        m.put(addr, a).put(addr, b) == m.put(addr, b),
{
    lemma_first_run(m.runs, addr, a.len() as int, 0);
    lemma_put_runs(m, addr, a);
    assert(m.put(addr, a).run_of(addr, b.len() as int) == m.run_of(addr, b.len() as int));
    if let Some(k) = m.run_of(addr, a.len() as int) {
        assert(m.runs[k].put(addr, a).put(addr, b) =~= m.runs[k].put(addr, b));
        assert(m.put(addr, a).put(addr, b).runs =~= m.put(addr, b).runs);
    }
}

/// A queue that takes over the state that another one exported reports the
/// same state.
pub proof fn law_comp_queue_migrates(from: CompQueueView, to: CompQueueView)
    requires
        from.wf(),
        to.wf(),
        to.id == from.id,
        to.iv == from.iv,
        to.base == from.base,
        to.state.queue.size == from.state.queue.size,
    ensures
        from.spec_export().consistent(),
        to.imported(from.spec_export()).spec_export() == from.spec_export(),
        to.imported(from.spec_export()).wf(),
        to.imported(from.spec_export()).state.outstanding() == from.state.outstanding(),
{
}

// ---------------------------------------------------------------------------
// Submission queues
// ---------------------------------------------------------------------------

impl QueueState {
    /// How many entries are empty.
    pub open spec fn room(self) -> u16 {
        spec_wrap_sub(self.size, spec_wrap_sub(self.size, self.head, 1), self.tail)
    }

    /// The tail moved forward to `idx`, or why it cannot be.
    pub open spec fn pushed_to(self, idx: u16) -> Result<QueueState, QueueUpdateError> {
        if idx >= self.size {
            Err(QueueUpdateError::InvalidEntry)
        } else if spec_wrap_sub(self.size, idx, self.tail) > self.room() {
            Err(QueueUpdateError::TooManyEntries)
        } else {
            Ok(QueueState { tail: idx, ..self })
        }
    }

    /// The head moved forward by one.
    pub open spec fn popped(self) -> QueueState {
        QueueState { head: spec_wrap_add(self.size, self.head, 1), ..self }
    }

    /// The state after a look at the shadow doorbell, if there is one.
    pub open spec fn sq_db_read(self, mem: MemView) -> QueueState {
        match self.db_buf {
            Some(b) => if mem.covers(b.shadow, 4) {
                match self.pushed_to((val32(mem.at(b.shadow, 4)) % 0x1_0000) as u16) {
                    Ok(s) => s,
                    Err(_) => self,
                }
            } else {
                self
            },
            None => self,
        }
    }

    /// Memory after the event index was set to the head.
    pub open spec fn sq_db_write(self, mem: MemView) -> MemView {
        match self.db_buf {
            Some(b) => mem.put(b.eventidx, le16(self.head)),
            None => mem,
        }
    }

    /// Memory after the shadow doorbell was set to the tail.
    pub open spec fn sq_db_write_shadow(self, mem: MemView) -> MemView {
        match self.db_buf {
            Some(b) => mem.put(b.shadow, le16(self.tail)),
            None => mem,
        }
    }

    /// How many entries are empty, not counting the one that stays unused.
    pub fn avail_empty(&self) -> (r: u16)
        requires
            self.wf(),
        ensures
            r == self.room(),
    {
        wrap_sub(self.size, wrap_sub(self.size, self.head, 1), self.tail)
    }

    /// Moves the head forward by one, unless the queue is empty, and returns
    /// the index that it pointed to.
    pub fn pop_head(&mut self) -> (r: Option<u16>)
        requires
            old(self).wf(),
        ensures
            final(self).wf(),
            r == (if old(self).empty() {
                None::<u16>
            } else {
                Some(old(self).head)
            }),
            *final(self) == (if old(self).empty() {
                *old(self)
            } else {
                old(self).popped()
            }),
    {
        if self.is_empty() {
            None
        } else {
            let old_head: u16 = self.head;
            self.head = wrap_add(self.size, old_head, 1);
            Some(old_head)
        }
    }

    /// Moves the tail forward to `idx`: new entries have been added.
    pub fn push_tail_to(&mut self, idx: u16) -> (r: Result<(), QueueUpdateError>)
        requires
            old(self).wf(),
        ensures
            final(self).wf(),
            match old(self).pushed_to(idx) {
                Ok(s) => r is Ok && *final(self) == s,
                Err(e) => r == Err::<(), QueueUpdateError>(e) && *final(self) == *old(self),
            },
    {
        if idx as u32 >= self.size {
            return Err(QueueUpdateError::InvalidEntry);
        }
        let push_count: u16 = wrap_sub(self.size, idx, self.tail);
        if push_count > self.avail_empty() {
            return Err(QueueUpdateError::TooManyEntries);
        }
        self.tail = idx;
        Ok(())
    }

    /// Sets the event index to the head, so that the guest rings the doorbell
    /// only once the queue has been emptied.
    pub fn sq_db_buf_write(&self, mem: &mut MemCtx)
        ensures
            final(mem)@ == self.sq_db_write(old(mem)@),
    {
        if let Some(db_buf) = self.db_buf {
            let _stored: bool = mem.write_u16(db_buf.eventidx, self.head);
        }
    }

    /// Sets the shadow doorbell to the tail.
    pub fn sq_db_buf_write_shadow(&self, mem: &mut MemCtx)
        ensures
            final(mem)@ == self.sq_db_write_shadow(old(mem)@),
    {
        if let Some(db_buf) = self.db_buf {
            let _stored: bool = mem.write_u16(db_buf.shadow, self.tail);
        }
    }

    /// Moves the tail to where the shadow doorbell says, if that is possible.
    pub fn sq_db_buf_read(&mut self, mem: &MemCtx)
        requires
            old(self).wf(),
        ensures
            *final(self) == old(self).sq_db_read(mem@),
            final(self).wf(),
    {
        if let Some(db_buf) = self.db_buf {
            if let Some(new_tail) = mem.read_u32(db_buf.shadow) {
                let _moved: Result<(), QueueUpdateError> = self.push_tail_to(
                    (new_tail % 0x1_0000) as u16,
                );
            }
        }
    }
}

/// What is occupied and what is empty add up to all but one of the entries.
pub proof fn law_room_and_occupied(q: QueueState)
    requires
        q.wf(),
    ensures
        q.room() + q.occupied() == q.size - 1,
{
}

/// Moving the tail adds exactly as many entries as it moves, and each pop takes
/// exactly one away.
pub proof fn law_push_pop_count(q: QueueState, idx: u16)
    requires
        q.wf(),
    ensures
        q.pushed_to(idx) matches Ok(s) ==> s.wf() && s.occupied() == q.occupied() + spec_wrap_sub(
            q.size,
            idx,
            q.tail,
        ),
        !q.empty() ==> q.popped().wf() && q.popped().occupied() == q.occupied() - 1,
{
}

/// A submission queue.
#[derive(Clone, Copy, Debug)]
pub struct SubQueue {
    pub id: QueueId,
    /// The controller that owns the queue.
    pub device_id: DeviceId,
    /// The completion queue for the commands of this queue.
    pub cq_id: QueueId,
    /// Where the entries are.
    pub base: GuestAddr,
    /// Tells this queue from others that had the same ID before.
    pub serial: u64,
    pub state: QueueState,
    pub params: TransferParams,
}

/// What an attempt to take an entry off a submission queue leaves behind, and
/// what it gives.
#[verifier::ext_equal]
pub struct PopOutcome {
    pub sq: SubQueue,
    pub cq: CompQueueView,
    pub acc: MemAccessView,
    pub got: Option<(SubmissionQueueEntry, Permit, u16)>,
}

impl SubQueue {
    /// The invariant of submission queues.
    pub open spec fn wf(self) -> bool {
        self.state.wf()
    }

    /// A new queue.
    pub open spec fn spec_new(params: CreateParams, cq_id: QueueId) -> SubQueue {
        SubQueue {
            id: params.id,
            device_id: params.device_id,
            cq_id,
            base: params.base,
            serial: 0,
            state: QueueState::spec_new(params.size),
            params: TransferParams { lba_data_size: 0, max_data_tranfser_size: 0 },
        }
    }

    /// The address of entry `idx`.
    pub open spec fn entry_addr(self, idx: u16) -> GuestAddr {
        self.base.spec_advance(idx * 64)
    }

    /// The queue and memory after an attempt to take the next entry off the
    /// queue, and the entry with its index, if there was one that could be read.
    pub open spec fn head_taken(self, mem: MemView) -> (
        SubQueue,
        MemView,
        Option<(SubmissionQueueEntry, u16)>,
    ) {
        let fresh = self.state.sq_db_read(mem);
        let addr = self.entry_addr(fresh.head);
        if fresh.empty() {
            (SubQueue { state: fresh, ..self }, mem, None)
        } else if !mem.covers(addr, 64) {
            (SubQueue { state: fresh.popped(), ..self }, mem, None)
        } else {
            let mem2 = fresh.popped().sq_db_write(mem);
            (
                SubQueue { state: fresh.popped().sq_db_read(mem2), ..self },
                mem2,
                Some((sqe_decode(mem.at(addr, 64)), fresh.head)),
            )
        }
    }

    /// What an attempt to take an entry off the queue does.
    pub open spec fn spec_pop(self, cq: CompQueueView, acc: MemAccessView) -> PopOutcome {
        let (held, got) = cq.reserved(self.id, acc.mem);
        if !acc.accessible {
            PopOutcome { sq: self, cq, acc, got: None }
        } else if !got {
            PopOutcome { sq: self, cq: held, acc, got: None }
        } else {
            let (sq, mem, taken) = self.head_taken(acc.mem);
            match taken {
                None => PopOutcome {
                    sq,
                    cq: held.released(),
                    acc: MemAccessView { mem, ..acc },
                    got: None,
                },
                Some((ent, idx)) => PopOutcome {
                    sq,
                    cq: held,
                    acc: MemAccessView { mem, ..acc },
                    got: Some((ent, ProtoPermit::spec_new(cq, self).spec_promote(ent.spec_cid()), idx)),
                },
            }
        }
    }

    /// The queue with the given doorbell buffers.
    pub open spec fn with_db_buf(self, db_buf: Option<DoorbellBuffer>) -> SubQueue {
        let place = match db_buf {
            Some(b) => Some(b.for_queue(false, self.id)),
            None => None,
        };
        SubQueue { state: QueueState { db_buf: place, ..self.state }, ..self }
    }

    /// Memory after the doorbell buffers were set: the shadow doorbell tells
    /// the tail, unless the queue is being brought over from another host.
    pub open spec fn db_buf_synced(
        self,
        db_buf: Option<DoorbellBuffer>,
        is_import: bool,
        acc: MemAccessView,
    ) -> MemAccessView {
        match db_buf {
            Some(b) => if !is_import && acc.accessible {
                MemAccessView {
                    mem: acc.mem.put(
                        b.for_queue(false, self.id).shadow,
                        le32(self.state.tail as u32),
                    ),
                    ..acc
                }
            } else {
                acc
            },
            None => acc,
        }
    }

    /// The state to be moved to another host.
    pub open spec fn spec_export(self) -> NvmeSubQueueV1 {
        NvmeSubQueueV1 {
            id: self.id,
            size: self.state.size,
            head: self.state.head,
            tail: self.state.tail,
            base: self.base.0,
            cq_id: self.cq_id,
        }
    }

    /// The queue in the state brought over from another host.
    pub open spec fn imported(self, s: NvmeSubQueueV1) -> SubQueue {
        SubQueue { state: QueueState { head: s.head, tail: s.tail, ..self.state }, ..self }
    }

    /// Creates a submission queue whose entries are at the given address, and
    /// has `cq` serve it.
    pub fn new(params: CreateParams, cq: &mut CompQueue) -> (r: Result<SubQueue, QueueCreateErr>)
        requires
            old(cq)@.sqs.no_duplicates(),
        ensures
            final(cq)@.sqs.no_duplicates(),
            old(cq).wf() ==> final(cq).wf(),
            match spec_validate(params.id == ADMIN_QUEUE_ID, params.base, params.size) {
                Err(e) => r == Err::<SubQueue, QueueCreateErr>(e) && final(cq)@ == old(cq)@,
                Ok(_) => if old(cq)@.sqs.contains(params.id) {
                    &&& r == Err::<SubQueue, QueueCreateErr>(
                        QueueCreateErr::SubQueueIdAlreadyExists(params.id),
                    )
                    &&& final(cq)@ == old(cq)@
                } else {
                    &&& r == Ok::<SubQueue, QueueCreateErr>(Self::spec_new(params, old(cq)@.id))
                    &&& final(cq)@ == (CompQueueView {
                        sqs: old(cq)@.sqs.push(params.id),
                        ..old(cq)@
                    })
                },
            },
            r matches Ok(q) ==> q.wf(),
    {
        match validate(params.id == ADMIN_QUEUE_ID, params.base, params.size) {
            Err(e) => {
                return Err(e);
            },
            Ok(()) => {},
        }
        if id_in(&cq.sqs, params.id) {
            return Err(QueueCreateErr::SubQueueIdAlreadyExists(params.id));
        }
        cq.sqs.push(params.id);
        Ok(
            SubQueue {
                id: params.id,
                device_id: params.device_id,
                cq_id: cq.id,
                base: params.base,
                serial: 0,
                state: QueueState::new(params.size),
                params: TransferParams { lba_data_size: 0, max_data_tranfser_size: 0 },
            },
        )
    }

    /// Ends the association of the queue with its completion queue.
    pub fn unlink(self, cq: &mut CompQueue)
        requires
            old(cq)@.sqs.no_duplicates(),
        ensures
            final(cq)@.sqs.no_duplicates(),
            old(cq).wf() ==> final(cq).wf(),
            final(cq)@ == (CompQueueView { sqs: without_id(old(cq)@.sqs, self.id), ..old(cq)@ }),
    {
        remove_id(&mut cq.sqs, self.id);
    }

    /// Moves the tail forward to `idx` and tells how many entries are then
    /// occupied; for the admin queue, the shadow doorbell follows.
    pub fn notify_tail(&mut self, idx: u16, acc: &mut MemAccessor) -> (r: Result<
        u16,
        QueueUpdateError,
    >)
        requires
            old(self).wf(),
        ensures
            final(self).wf(),
            match old(self).state.pushed_to(idx) {
                Ok(s) => r == Ok::<u16, QueueUpdateError>(s.occupied()) && *final(self) == (
                SubQueue { state: s, ..*old(self) }) && final(acc)@ == (if old(self).id
                    == ADMIN_QUEUE_ID && old(acc)@.accessible {
                    MemAccessView { mem: s.sq_db_write_shadow(old(acc)@.mem), ..old(acc)@ }
                } else {
                    old(acc)@
                }),
                Err(e) => r == Err::<u16, QueueUpdateError>(e) && *final(self) == *old(self)
                    && final(acc)@ == old(acc)@,
            },
    {
        match self.state.push_tail_to(idx) {
            Err(e) => Err(e),
            Ok(()) => {
                if self.id == ADMIN_QUEUE_ID {
                    if acc.accessible {
                        self.state.sq_db_buf_write_shadow(&mut acc.mem);
                    }
                }
                Ok(self.state.num_occupied())
            },
        }
    }

    /// How many entries are occupied.
    pub fn num_occupied(&self) -> (r: u16)
        requires
            self.wf(),
        ensures
            r == self.state.occupied(),
    {
        self.state.num_occupied()
    }

    /// Takes the next entry off the queue, together with a permit for its
    /// completion and its index. Gives nothing if there is no entry, or no room
    /// for its completion.
    pub fn pop(&mut self, cq: &mut CompQueue, acc: &mut MemAccessor) -> (r: Option<
        (SubmissionQueueEntry, Permit, u16),
    >)
        requires
            old(self).wf(),
            old(cq).wf(),
        ensures
            final(self).wf(),
            final(cq).wf(),
            ({
                let out = old(self).spec_pop(old(cq)@, old(acc)@);
                &&& *final(self) == out.sq
                &&& final(cq)@ == out.cq
                &&& final(acc)@ == out.acc
                &&& r == out.got
            }),
            final(cq)@.state.outstanding() == old(cq)@.state.outstanding() + if r is Some {
                1int
            } else {
                0
            },
    {
        if !acc.accessible {
            return None;
        }
        let ghost cq0 = cq@;
        let permit: ProtoPermit = match cq.reserve_entry(self, &acc.mem) {
            None => {
                return None;
            },
            Some(p) => p,
        };
        match self.take_head(&mut acc.mem) {
            Some((ent, idx)) => Some((ent, permit.promote(ent.cid()), idx)),
            None => {
                permit.remit(cq);
                None
            },
        }
    }

    /// Takes the next entry off the queue, with its index, if there is one and
    /// it can be read.
    fn take_head(&mut self, mem: &mut MemCtx) -> (r: Option<(SubmissionQueueEntry, u16)>)
        requires
            old(self).wf(),
        ensures
            final(self).wf(),
            (*final(self), final(mem)@, r) == old(self).head_taken(old(mem)@),
    {
        self.state.sq_db_buf_read(mem);
        let idx: u16 = match self.state.pop_head() {
            None => {
                return None;
            },
            Some(idx) => idx,
        };
        let addr: GuestAddr = self.base.advance(idx as u64 * SQE_SIZE as u64);
        match mem.read_bytes(addr, SQE_SIZE) {
            None => None,
            Some(raw) => {
                let ent: SubmissionQueueEntry = SubmissionQueueEntry::from_bytes(&raw);
                self.state.sq_db_buf_write(mem);
                self.state.sq_db_buf_read(mem);
                Some((ent, idx))
            },
        }
    }

    /// The identifier of the queue.
    pub fn id(&self) -> (r: QueueId)
        ensures
            r == self.id,
    {
        self.id
    }

    /// Sets or clears the doorbell buffers. Unless the queue is being brought
    /// over from another host, the shadow doorbell is set to the tail.
    pub fn set_db_buf(&mut self, db_buf: Option<DoorbellBuffer>, is_import: bool, acc: &mut MemAccessor)
        ensures
            *final(self) == old(self).with_db_buf(db_buf),
            final(acc)@ == old(self).db_buf_synced(db_buf, is_import, old(acc)@),
            old(self).wf() ==> final(self).wf(),
    {
        self.state.db_buf = match db_buf {
            Some(b) => Some(b.offset_for_queue(false, self.id)),
            None => None,
        };
        if !is_import && acc.accessible {
            if let Some(b) = self.state.db_buf {
                let _stored: bool = acc.mem.write_u32(b.shadow, self.state.tail as u32);
            }
        }
    }

    /// Sets the limits on data transfers.
    pub fn update_params(&mut self, params: TransferParams)
        ensures
            *final(self) == (SubQueue { params, ..*old(self) }),
    {
        self.params = params;
    }

    /// The limits on data transfers.
    pub fn params(&self) -> (r: TransferParams)
        ensures
            r == self.params,
    {
        self.params
    }

    /// Notes the identifier and the head of this queue in a completion.
    pub fn annotate_completion(&self, cqe: &mut CompletionQueueEntry)
        ensures
            *final(cqe) == (CompletionQueueEntry {
                sqid: self.id,
                sqhd: self.state.head,
                ..*old(cqe)
            }),
    {
        cqe.sqid = self.id;
        cqe.sqhd = self.state.head;
    }

    /// A number that identifies this queue among those of all controllers.
    pub fn devq_id(&self) -> (r: u64)
        ensures
            r == spec_devq_id(self.device_id, self.id),
    {
        devq_id(self.device_id, self.id)
    }

    /// The state to be moved to another host.
    pub fn export(&self) -> (r: NvmeSubQueueV1)
        ensures
            r == self.spec_export(),
    {
        NvmeSubQueueV1 {
            id: self.id,
            size: self.state.size,
            head: self.state.head,
            tail: self.state.tail,
            base: self.base.0,
            cq_id: self.cq_id,
        }
    }

    /// Takes over the state brought from another host. What the queue was
    /// created with must agree with it.
    pub fn import(&mut self, state: NvmeSubQueueV1)
        requires
            old(self).id == state.id,
            old(self).cq_id == state.cq_id,
            old(self).base.0 == state.base,
            old(self).state.size == state.size,
        ensures
            *final(self) == old(self).imported(state),
            old(self).wf() && state.consistent() ==> final(self).wf(),
    {
        self.state.head = state.head;
        self.state.tail = state.tail;
    }
}

/// A queue that takes over the state that another one exported reports the
/// same state.
pub proof fn law_sub_queue_migrates(from: SubQueue, to: SubQueue)
    requires
        from.wf(),
        to.wf(),
        to.id == from.id,
        to.cq_id == from.cq_id,
        to.base == from.base,
        to.state.size == from.state.size,
    ensures
        from.spec_export().consistent(),
        to.imported(from.spec_export()).spec_export() == from.spec_export(),
        to.imported(from.spec_export()).wf(),
{
}

/// Nothing is taken off a submission queue, and its tail is not moved, while
/// the completion queue has no entry to promise.
pub proof fn law_no_pop_without_room(sq: SubQueue, cq: CompQueueView, acc: MemAccessView)
    requires
        sq.wf(),
        cq.wf(),
        acc.accessible,
        cq.refreshed(acc.mem).state.avail == 0,
    ensures
        sq.spec_pop(cq, acc).got is None,
        sq.spec_pop(cq, acc).sq == sq,
        sq.spec_pop(cq, acc).cq.corked.contains(sq.id),
{
    let s = cq.refreshed(acc.mem).corked;
    if !s.contains(sq.id) {
        assert(s.push(sq.id)[s.len() as int] == sq.id);
    }
}

// ---------------------------------------------------------------------------
// Permits
// ---------------------------------------------------------------------------

/// Room for one completion, for a command that is yet to be found. It is
/// either promoted to a [`Permit`] or given back.
#[derive(Debug)]
pub struct ProtoPermit {
    pub cq_id: QueueId,
    pub cq_serial: u64,
    pub sq_id: QueueId,
    pub sq_serial: u64,
    pub devsq_id: u64,
}

impl ProtoPermit {
    /// A permit of `sq` for `cq`.
    pub open spec fn spec_new(cq: CompQueueView, sq: SubQueue) -> ProtoPermit {
        ProtoPermit {
            cq_id: cq.id,
            cq_serial: cq.serial,
            sq_id: sq.id,
            sq_serial: sq.serial,
            devsq_id: spec_devq_id(sq.device_id, sq.id),
        }
    }

    /// The permit for the command `cid`.
    pub open spec fn spec_promote(self, cid: u16) -> Permit {
        Permit {
            cq_id: self.cq_id,
            cq_serial: self.cq_serial,
            sq_id: self.sq_id,
            sq_serial: self.sq_serial,
            devsq_id: self.devsq_id,
            cid,
        }
    }

    fn new(cq: &CompQueue, sq: &SubQueue) -> (r: ProtoPermit)
        ensures
            r == Self::spec_new(cq@, *sq),
    {
        ProtoPermit {
            cq_id: cq.id,
            cq_serial: cq.serial,
            sq_id: sq.id,
            sq_serial: sq.serial,
            devsq_id: sq.devq_id(),
        }
    }

    /// Turns this into the permit for the command `cid`.
    pub fn promote(self, cid: u16) -> (r: Permit)
        ensures
            r == self.spec_promote(cid),
    {
        Permit {
            cq_id: self.cq_id,
            cq_serial: self.cq_serial,
            sq_id: self.sq_id,
            sq_serial: self.sq_serial,
            devsq_id: self.devsq_id,
            cid,
        }
    }

    /// Gives the permit back unused.
    pub fn remit(self, cq: &mut CompQueue)
        requires
            old(cq).wf(),
            old(cq)@.state.outstanding() > 0,
        ensures
            final(cq)@ == old(cq)@.released(),
            final(cq).wf(),
            final(cq)@.state.outstanding() == old(cq)@.state.outstanding() - 1,
    {
        cq.state.release_avail();
    }
}

/// Room for the completion of a command.
#[derive(Debug)]
pub struct Permit {
    /// The completion queue that has room for the completion.
    pub cq_id: QueueId,
    pub cq_serial: u64,
    /// The submission queue that the command came from.
    pub sq_id: QueueId,
    pub sq_serial: u64,
    /// The number of that submission queue among those of all controllers.
    pub devsq_id: u64,
    /// The command.
    pub cid: u16,
}

impl Permit {
    /// The completion queue and memory after the permit was used, and the
    /// interrupt vector to be fired. If the submission queue is gone, the
    /// command has been aborted, and the room is given back.
    pub open spec fn spec_complete(
        self,
        comp: Completion,
        cq: CompQueueView,
        sq: Option<SubQueue>,
        acc: MemAccessView,
    ) -> (CompQueueView, MemAccessView, Option<u16>) {
        match sq {
            Some(sq) => {
                let (v, a) = cq.spec_push(comp, self.cid, sq.id, sq.state.head, acc);
                (
                    v,
                    a,
                    if v.state.queue.empty() {
                        None
                    } else {
                        Some(v.iv)
                    },
                )
            },
            None => (cq.released(), acc, None),
        }
    }

    /// Uses the permit to place a completion into the queue `cq`, for which it
    /// was given. `sq` is the submission queue of the command, if it still
    /// exists. Returns the interrupt vector to be fired, if any.
    pub fn complete(
        self,
        comp: Completion,
        cq: &mut CompQueue,
        sq: Option<&SubQueue>,
        acc: &mut MemAccessor,
    ) -> (r: Option<u16>)
        requires
            old(cq).wf(),
            old(cq)@.state.outstanding() > 0,
        ensures
            (final(cq)@, final(acc)@, r) == self.spec_complete(
                comp,
                old(cq)@,
                match sq {
                    Some(s) => Some(*s),
                    None => None,
                },
                old(acc)@,
            ),
            final(cq).wf(),
            final(cq)@.state.outstanding() == old(cq)@.state.outstanding() - 1,
    {
        match sq {
            Some(sq) => {
                cq.push(comp, self.cid, sq, acc);
                cq.fire_interrupt()
            },
            None => {
                cq.state.release_avail();
                None
            },
        }
    }

    /// The identifier of the command.
    pub fn cid(&self) -> (r: u16)
        ensures
            r == self.cid,
    {
        self.cid
    }

    /// The number of the submission queue of the command among those of all
    /// controllers.
    pub fn devsq_id(&self) -> (r: u64)
        ensures
            r == self.devsq_id,
    {
        self.devsq_id
    }

    /// Drops the permit of a command that will never be completed, and tells
    /// which command that was. The room stays taken.
    pub fn abandon(self) -> (r: u16)
        ensures
            r == self.cid,
    {
        self.cid
    }
}

/// The number that the block layer gives to the queue of an I/O submission
/// queue: the admin queue, which has number 0 here, has none there.
pub fn sqid_to_block_qid(sqid: QueueId) -> (r: u16)
    requires
        sqid != ADMIN_QUEUE_ID,
    ensures
        r == sqid - 1,
{
    sqid - 1
}

} // verus!
