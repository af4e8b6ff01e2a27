use propolis::block::{DeviceInfo, IoResult, Operation, QueueAction, Request};
use propolis::common::{GuestAddr, GuestRegion, MemAccessor, MemCtx, RWOp, ReadOp, WriteOp};
use propolis::hw::nvme::admin::write_admin_result;
use propolis::hw::nvme::bits::{
    AdminQueueAttrs, ArbitrationMechanism, Configuration, IOCommandSet, Status,
};
use propolis::hw::nvme::ctrl::{NvmeCtrlV1, NvmeEvent};
use propolis::hw::nvme::device::{takes_bar_access, PciNvme};
use propolis::hw::nvme::queue::{DeviceId, Permit, QueueCreateErr};
use propolis::hw::nvme::NvmeError;
use propolis::hw::pci::bus::Attachment;
use propolis::hw::pci::cfgspace::CfgReg;
use propolis::hw::pci::device::{DevCtx, PciStateV1, SlotInfo};
use propolis::hw::pci::msix::MsiMsg;
use propolis::hw::pci::{BarN, BusLocation, DevEvent, IntrMode};
use propolis::migrate::MigrateStateError;

const ASQ: u64 = 0x1000;
const ACQ: u64 = 0x2000;
const CQ1: u64 = 0x3000;
const SQ1: u64 = 0x4000;
const DATA: u64 = 0x8000;

/// A controller, with the memory and the driver of a guest.
struct Env {
    nvme: PciNvme,
    acc: MemAccessor,
    ctx: DevCtx,
    events: Vec<NvmeEvent>,
    /// Commands that were sent to the admin queue.
    sent: u32,
}

fn serial() -> [u8; 20] {
    let mut s = [0x20u8; 20];
    s[0..4].copy_from_slice(b"disk");
    s
}

fn new_env() -> Env {
    let mut nvme = PciNvme::create(&serial(), Some(5), DeviceId(7));
    nvme.attach(Attachment { location: BusLocation::new(16, 0).unwrap(), lintr_cfg: None });
    nvme.update_block_info(DeviceInfo { block_size: 512, total_size: 1000, writable: true });
    Env {
        nvme,
        acc: MemAccessor::new(MemCtx::new(0, 0x10_0000)),
        ctx: DevCtx {
            slot: SlotInfo { is_multifunc: false, lintr_asserted: false },
            events: Vec::new(),
        },
        events: Vec::new(),
        sent: 0,
    }
}

impl Env {
    fn bar_read(&mut self, bar: BarN, off: usize, len: usize) -> Vec<u8> {
        let op = RWOp::Read(ReadOp::from_buf(off, vec![0; len]));
        match self.nvme.bar_rw(bar, op, &mut self.ctx, &mut self.acc, &mut self.events) {
            RWOp::Read(ro) => ro.buf,
            RWOp::Write(_) => panic!(),
        }
    }

    fn bar_write(&mut self, bar: BarN, off: usize, data: &[u8]) {
        let op = RWOp::Write(WriteOp::from_buf(off, data.to_vec()));
        self.nvme.bar_rw(bar, op, &mut self.ctx, &mut self.acc, &mut self.events);
    }

    fn reg(&mut self, off: usize) -> u32 {
        let b = self.bar_read(BarN::BAR0, off, 4);
        u32::from_le_bytes([b[0], b[1], b[2], b[3]])
    }

    fn set_reg(&mut self, off: usize, v: u32) {
        self.bar_write(BarN::BAR0, off, &v.to_le_bytes());
    }

    fn cfg_write(&mut self, off: usize, data: &[u8]) {
        let op = RWOp::Write(WriteOp::from_buf(off, data.to_vec()));
        self.nvme.cfg_rw(op, &mut self.ctx);
    }

    fn cfg_byte(&mut self, off: usize) -> u8 {
        match self.nvme.cfg_rw(RWOp::Read(ReadOp::from_buf(off, vec![0])), &mut self.ctx) {
            RWOp::Read(ro) => ro.buf[0],
            RWOp::Write(_) => panic!(),
        }
    }

    fn word(&self, addr: u64) -> u32 {
        self.acc.mem.read_u32(GuestAddr(addr)).unwrap()
    }

    fn put(&mut self, addr: u64, v: u32) {
        assert!(self.acc.mem.write_u32(GuestAddr(addr), v));
    }

    fn put64(&mut self, addr: u64, v: u64) {
        assert!(self.acc.mem.write_u64(GuestAddr(addr), v));
    }

    /// Writes a command: its identifier, opcode, namespace, where its data is,
    /// and its words from the tenth on.
    fn put_cmd(&mut self, at: u64, cid: u32, op: u32, nsid: u32, prp1: u64, words: [u32; 3]) {
        for i in 0..16 {
            self.put(at + i * 4, 0);
        }
        self.put(at, cid << 16 | op);
        self.put(at + 4, nsid);
        self.put64(at + 24, prp1);
        for (i, w) in words.iter().enumerate() {
            self.put(at + 40 + i as u64 * 4, *w);
        }
    }

    fn enable(&mut self) {
        // Queues of 16 entries
        self.set_reg(0x24, 15 << 16 | 15);
        self.bar_write(BarN::BAR0, 0x28, &ASQ.to_le_bytes());
        self.bar_write(BarN::BAR0, 0x30, &ACQ.to_le_bytes());
        self.set_reg(0x14, 1 | 6 << 16 | 4 << 20);
        assert_eq!(self.reg(0x1c), 1);
    }

    /// Sends a command to the admin queue and gives what completes it: its
    /// result and its status.
    fn admin(&mut self, op: u32, nsid: u32, prp1: u64, words: [u32; 3]) -> (u32, u32) {
        let n = self.sent;
        self.put_cmd(ASQ + (n as u64 % 16) * 64, n, op, nsid, prp1, words);
        self.sent += 1;
        self.set_reg(0x1000, self.sent % 16);
        let at = ACQ + (n as u64 % 16) * 16;
        assert_eq!(self.word(at + 8), self.sent % 16);
        let last = self.word(at + 12);
        assert_eq!(last & 0xffff, n);
        // The first round has the phase set
        assert_eq!(last >> 16 & 1, if n < 16 { 1 } else { 0 });
        self.set_reg(0x1004, self.sent % 16);
        (self.word(at), last >> 17)
    }

    fn with_queues() -> Env {
        let mut e = new_env();
        e.enable();
        assert_eq!(e.admin(5, 0, CQ1, [7 << 16 | 1, 1 << 16 | 3, 0]), (0, 0));
        assert_eq!(e.admin(1, 0, SQ1, [7 << 16 | 1, 1 << 16 | 1, 0]), (0, 0));
        e
    }

    fn next(&mut self) -> Option<(Request, Permit)> {
        self.nvme.next_req(1, &mut self.acc, &mut self.events)
    }

    fn complete(&mut self, op: Operation, res: IoResult, permit: Permit) {
        self.nvme.complete(op, res, permit, &mut self.acc, &mut self.events);
    }

    /// Sets up one interrupt vector, unmasked, and lets vectors be used.
    fn use_vector(&mut self, n: usize, addr: u64, data: u32) {
        self.bar_write(BarN::BAR4, n * 16, &addr.to_le_bytes());
        self.bar_write(BarN::BAR4, n * 16 + 8, &data.to_le_bytes());
        self.bar_write(BarN::BAR4, n * 16 + 12, &0u32.to_le_bytes());
        let cap = self.cfg_byte(0x34) as usize;
        assert_eq!(self.cfg_byte(cap), 0x11);
        self.cfg_write(cap + 2, &[0x00, 0x80]);
    }
}

#[test]
fn registers_after_creation() {
    let mut e = new_env();
    // 65536 entries, contiguous; the NVM command set
    assert_eq!(e.reg(0), 0x1_ffff);
    assert_eq!(e.reg(4), 1 << 5);
    assert_eq!(e.reg(8), 0x0001_0000);
    for off in [0x0c, 0x10, 0x14, 0x1c, 0x24, 0x28, 0x2c, 0x30, 0x34] {
        assert_eq!(e.reg(off), 0);
    }
    // Doorbells read as zero
    assert_eq!(e.reg(0x1000), 0);
    assert_eq!(e.reg(0x1008), 0);
}

#[test]
fn registers_keep_what_is_written() {
    let mut e = new_env();
    e.set_reg(0x24, 0x003f_001f);
    e.bar_write(BarN::BAR0, 0x28, &0x1_2345_6000u64.to_le_bytes());
    assert_eq!(e.reg(0x24), 0x003f_001f);
    assert_eq!(e.reg(0x28), 0x2345_6000);
    assert_eq!(e.reg(0x2c), 1);
    // Capabilities are read-only
    e.set_reg(0, 0);
    assert_eq!(e.reg(0), 0x1_ffff);
    // An address is that of a page
    e.bar_write(BarN::BAR0, 0x30, &0x1fffu64.to_le_bytes());
    assert_eq!(e.reg(0x30), 0x1000);
    // Once the controller is enabled, these registers are out of reach
    e.enable();
    e.set_reg(0x24, 0);
    assert_eq!(e.reg(0x24), 0);
    assert_eq!(e.nvme.state.ctrl.aqa, AdminQueueAttrs(15 << 16 | 15));
}

#[test]
fn controller_becomes_ready_and_resets() {
    let mut e = new_env();
    e.enable();
    assert!(e.nvme.state.cqs[0].is_some());
    assert!(e.nvme.state.sqs[0].is_some());
    e.set_reg(0x14, 0);
    assert_eq!(e.reg(0x1c), 0);
    assert!(e.nvme.state.cqs.iter().all(|q| q.is_none()));
    assert!(e.nvme.state.sqs.iter().all(|q| q.is_none()));
}

#[test]
fn controller_cannot_start_with_bad_queues() {
    let mut e = new_env();
    // The admin queues have one entry each
    e.set_reg(0x14, 1 | 6 << 16 | 4 << 20);
    // A fatal error is reported
    let csts = Status(e.reg(0x1c));
    assert!(csts.cfs());
    assert!(!csts.ready());
}

#[test]
fn shutdown_is_reported() {
    let mut e = new_env();
    e.enable();
    e.set_reg(0x14, 1 | 1 << 14 | 6 << 16 | 4 << 20);
    assert_eq!(e.reg(0x1c) >> 2 & 3, 2);
}

#[test]
fn controller_identifies_itself() {
    let mut e = new_env();
    e.enable();
    assert_eq!(e.admin(6, 0, DATA, [1, 0, 0]), (0, 0));
    let id = e.acc.mem.read_bytes(GuestAddr(DATA), 4096).unwrap();
    assert_eq!(&id[0..4], &[0xde, 0x01, 0xde, 0x01]);
    assert_eq!(&id[4..24], &serial());
    assert_eq!(&id[73..76], &[0xa8, 0x40, 0x25]);
    // The limit on transfers
    assert_eq!(id[77], 5);
    // Doorbell buffers
    assert_eq!(&id[256..258], &[0, 1]);
    // Sizes of queue entries, and one namespace
    assert_eq!(&id[512..514], &[0x66, 0x44]);
    assert_eq!(&id[516..520], &[1, 0, 0, 0]);
    assert_eq!(id[525], 1);
}

#[test]
fn namespace_identifies_itself() {
    let mut e = new_env();
    e.enable();
    assert_eq!(e.admin(6, 1, DATA, [0, 0, 0]), (0, 0));
    let id = e.acc.mem.read_bytes(GuestAddr(DATA), 4096).unwrap();
    for at in [0, 8, 16] {
        assert_eq!(&id[at..at + 8], &1000u64.to_le_bytes());
    }
    // Blocks of 512 bytes
    assert_eq!(&id[128..132], &[0, 0, 9, 0]);
    // No other namespace
    assert_eq!(e.admin(6, 2, DATA, [0, 0, 0]).1, 0x0b);
    // Only one bit tells what is asked for
    assert_eq!(e.admin(6, 1, DATA, [2, 0, 0]), (0, 0));
}

#[test]
fn unknown_admin_commands_are_refused() {
    let mut e = new_env();
    e.enable();
    assert_eq!(e.admin(0x7f, 0, 0, [0, 0, 0]), (0, 6));
}

#[test]
fn commands_are_never_aborted() {
    let mut e = new_env();
    e.enable();
    // The queue and the command are valid, but nothing is aborted
    assert_eq!(e.admin(8, 0, 0, [0, 0, 0]), (1, 0));
}

#[test]
fn features_are_told() {
    let mut e = new_env();
    e.enable();
    // Volatile write cache
    assert_eq!(e.admin(0xa, 0, 0, [6, 0, 0]), (1, 0));
    // Number of queues
    assert_eq!(e.admin(0xa, 0, 0, [7, 0, 0]), (14 << 16 | 14, 0));
    // Interrupt vectors
    assert_eq!(e.admin(0xa, 0, 0, [9, 2, 0]), (2 | 1 << 16, 0));
    // Temperature thresholds: over 100 degrees, and under absolute zero
    assert_eq!(e.admin(0xa, 0, 0, [4, 0, 0]), (373, 0));
    assert_eq!(e.admin(0xa, 0, 0, [4, 1 << 20, 0]), (1 << 20, 0));
    // A reserved feature, and there is no use in trying again
    assert_eq!(e.admin(0xa, 0, 0, [0, 0, 0]).1, 0x4002);
}

#[test]
fn number_of_queues_is_negotiated() {
    let mut e = new_env();
    e.enable();
    assert_eq!(e.admin(9, 0, 0, [7, 3 << 16 | 2, 0]), (3 << 16 | 2, 0));
    assert_eq!(e.admin(9, 0, 0, [7, 99 << 16 | 3, 0]), (14 << 16 | 3, 0));
    // 65536 queues cannot be asked for
    assert_eq!(e.admin(9, 0, 0, [7, 0xffff, 0]).1, 2);
}

#[test]
fn log_pages_are_written() {
    let mut e = new_env();
    e.enable();
    for i in 0..16 {
        e.put(DATA + i * 4, 0xffff_ffff);
    }
    // 64 bytes of the error log
    assert_eq!(e.admin(2, 0, DATA, [15 << 16 | 1, 0, 0]), (0, 0));
    assert_eq!(e.word(DATA), 0);
    assert_eq!(e.word(DATA + 60), 0);
    // There is no memory
    assert_eq!(e.admin(2, 0, 0x1000_0000, [15 << 16 | 1, 0, 0]).1, 4);
}

#[test]
fn queues_are_created_and_deleted() {
    let mut e = Env::with_queues();
    assert_eq!(e.events.last(), Some(&NvmeEvent::Block(QueueAction::Associate(0))));
    // A completion queue cannot go before its submission queue
    assert_eq!(e.admin(4, 0, 0, [1, 0, 0]).1, 0x10c);
    assert_eq!(e.admin(0, 0, 0, [1, 0, 0]), (0, 0));
    assert_eq!(e.events.last(), Some(&NvmeEvent::Block(QueueAction::Dissociate(0))));
    assert_eq!(e.admin(4, 0, 0, [1, 0, 0]), (0, 0));
    // They are gone
    assert_eq!(e.admin(0, 0, 0, [1, 0, 0]).1, 0x101);
    assert_eq!(e.admin(4, 0, 0, [1, 0, 0]).1, 0x101);
}

#[test]
fn queues_that_cannot_be_created() {
    let mut e = Env::with_queues();
    // The identifier is taken
    assert_eq!(e.admin(5, 0, CQ1, [7 << 16 | 1, 1 << 16 | 3, 0]).1, 0x101);
    // There is no such completion queue
    assert_eq!(e.admin(1, 0, SQ1, [7 << 16 | 2, 9 << 16 | 1, 0]).1, 0x100);
    // A queue of one entry
    assert_eq!(e.admin(5, 0, CQ1, [2, 1 << 16 | 3, 0]).1, 0x102);
    // Not contiguous
    assert_eq!(e.admin(5, 0, CQ1, [7 << 16 | 2, 1 << 16 | 2, 0]).1, 2);
    // Not at the start of a page
    assert_eq!(e.admin(5, 0, CQ1 + 8, [7 << 16 | 2, 1 << 16 | 3, 0]).1, 2);
}

#[test]
fn read_is_served_and_completed() {
    let mut e = Env::with_queues();
    assert!(e.next().is_none());
    // Blocks 10 and 11
    e.put_cmd(SQ1, 0x21, 2, 1, DATA, [10, 0, 1]);
    e.set_reg(0x1008, 1);
    assert_eq!(e.events.last(), Some(&NvmeEvent::Block(QueueAction::Notify(0, 1))));
    let (req, permit) = e.next().unwrap();
    assert_eq!(req.op, Operation::Read(5120, 1024));
    assert_eq!(req.regions, vec![GuestRegion(GuestAddr(DATA), 1024)]);
    assert_eq!(permit.cid(), 0x21);
    assert!(e.next().is_none());
    e.complete(req.op, IoResult::Success, permit);
    assert_eq!(e.word(CQ1), 0);
    assert_eq!(e.word(CQ1 + 8), 1 << 16 | 1);
    assert_eq!(e.word(CQ1 + 12), 1 << 16 | 0x21);
}

#[test]
fn write_and_flush_are_served() {
    let mut e = Env::with_queues();
    e.put_cmd(SQ1, 1, 1, 1, DATA + 0x800, [3, 0, 0]);
    e.put_cmd(SQ1 + 64, 2, 0, 1, 0, [0, 0, 0]);
    e.set_reg(0x1008, 2);
    let (req, permit) = e.next().unwrap();
    assert_eq!(req.op, Operation::Write(1536, 512));
    assert_eq!(req.regions, vec![GuestRegion(GuestAddr(DATA + 0x800), 512)]);
    e.complete(req.op, IoResult::Failure, permit);
    // Data could not be transferred
    assert_eq!(e.word(CQ1 + 12) >> 17, 4);
    let (req, permit) = e.next().unwrap();
    assert_eq!(req.op, Operation::Flush);
    assert!(req.regions.is_empty());
    e.complete(req.op, IoResult::Success, permit);
    assert_eq!(e.word(CQ1 + 28), 1 << 16 | 2);
}

#[test]
fn data_spans_pages() {
    let mut e = Env::with_queues();
    // Three pages: the second and the third are in a list
    e.put_cmd(SQ1, 1, 2, 1, DATA, [0, 0, 23]);
    e.put64(SQ1 + 32, 0x7000);
    e.put64(0x7000, 0xa000);
    e.put64(0x7008, 0xc000);
    e.set_reg(0x1008, 1);
    let (req, _permit) = e.next().unwrap();
    assert_eq!(
        req.regions,
        vec![
            GuestRegion(GuestAddr(DATA), 0x1000),
            GuestRegion(GuestAddr(0xa000), 0x1000),
            GuestRegion(GuestAddr(0xc000), 0x1000),
        ]
    );
}

#[test]
fn bad_io_commands_are_completed_at_once() {
    let mut e = Env::with_queues();
    // An unknown command, one with another one fused to it, and one that moves
    // more than the limit on transfers
    e.put_cmd(SQ1, 1, 0x55, 1, DATA, [0, 0, 0]);
    e.put_cmd(SQ1 + 64, 2, 0x102, 1, DATA, [0, 0, 0]);
    e.put_cmd(SQ1 + 128, 3, 2, 1, DATA, [0, 0, 256]);
    e.set_reg(0x1008, 3);
    assert!(e.next().is_none());
    let statuses: Vec<u32> = (0..3).map(|i| e.word(CQ1 + i * 16 + 12) >> 17).collect();
    assert_eq!(statuses, vec![6, 6, 0x4002]);
    assert_eq!(e.nvme.state.sqs[1].as_ref().unwrap().num_occupied(), 0);
}

#[test]
fn full_completion_queue_holds_requests_back() {
    let mut e = new_env();
    e.enable();
    // A completion queue of two entries has room for one
    assert_eq!(e.admin(5, 0, CQ1, [1 << 16 | 1, 1 << 16 | 3, 0]), (0, 0));
    assert_eq!(e.admin(1, 0, SQ1, [7 << 16 | 1, 1 << 16 | 1, 0]), (0, 0));
    e.put_cmd(SQ1, 1, 0, 1, 0, [0, 0, 0]);
    e.put_cmd(SQ1 + 64, 2, 0, 1, 0, [0, 0, 0]);
    e.set_reg(0x1008, 2);
    let (req, permit) = e.next().unwrap();
    assert!(e.next().is_none());
    e.complete(req.op, IoResult::Success, permit);
    assert!(e.next().is_none());
    // The guest takes the completion, and the queue is heard of again
    e.events.clear();
    e.set_reg(0x100c, 1);
    assert_eq!(e.events, vec![NvmeEvent::Block(QueueAction::Notify(0, 1))]);
    assert!(e.next().is_some());
}

#[test]
fn completion_sends_its_interrupt() {
    let mut e = Env::with_queues();
    e.use_vector(1, 0xfee0_0000, 0x42);
    assert!(e.ctx.events.contains(&DevEvent::IntrModeChange(IntrMode::Msix)));
    e.put_cmd(SQ1, 1, 0, 1, 0, [0, 0, 0]);
    e.set_reg(0x1008, 1);
    let (req, permit) = e.next().unwrap();
    e.events.clear();
    e.complete(req.op, IoResult::Success, permit);
    assert_eq!(e.events, vec![NvmeEvent::Msi(MsiMsg { addr: 0xfee0_0000, data: 0x42 })]);
}

#[test]
fn doorbell_buffers_are_used() {
    let mut e = Env::with_queues();
    e.put_cmd(ASQ + 128, 2, 0x7c, 0, 0x1_0000, [0, 0, 0]);
    e.put64(ASQ + 128 + 32, 0x1_1000);
    e.set_reg(0x1000, 3);
    assert_eq!(e.word(ACQ + 44) >> 17, 0);
    assert!(e.nvme.state.doorbell_buf.is_some());
    // The guest tells of its new tail in memory only
    e.put_cmd(SQ1, 1, 0, 1, 0, [0, 0, 0]);
    e.put(0x1_0000 + 8, 1);
    assert!(e.next().is_some());
    assert!(e.next().is_none());
    // The controller has told how far it has looked
    assert_eq!(e.word(0x1_1000 + 8), 1);
}

#[test]
fn nothing_happens_without_memory() {
    let mut e = Env::with_queues();
    e.put_cmd(SQ1, 1, 0, 1, 0, [0, 0, 0]);
    e.set_reg(0x1008, 1);
    e.acc.accessible = false;
    assert!(e.next().is_none());
    e.acc.accessible = true;
    assert!(e.next().is_some());
}

fn saved(e: &Env) -> (NvmeCtrlV1, PciStateV1) {
    e.nvme.export()
}

fn import(to: &mut Env, from: &Env) -> Result<(), MigrateStateError> {
    let (ctrl, pci) = saved(from);
    to.nvme.import(&ctrl, pci, &mut to.ctx, &mut to.acc, &mut to.events)
}

#[test]
fn controller_moves_with_its_queues() {
    let mut a = Env::with_queues();
    a.put_cmd(SQ1, 9, 0, 1, 0, [0, 0, 0]);
    a.set_reg(0x1008, 1);
    let mut b = new_env();
    // The memory moves too
    let mem = a.acc.mem.read_bytes(GuestAddr(0), 0x10_0000).unwrap();
    assert!(b.acc.mem.write_bytes(GuestAddr(0), &mem));
    assert_eq!(import(&mut b, &a), Ok(()));
    assert_eq!(b.reg(0x1c), 1);
    let (ctrl_a, pci_a) = saved(&a);
    let (ctrl_b, pci_b) = saved(&b);
    assert_eq!(format!("{:?}", ctrl_a), format!("{:?}", ctrl_b));
    assert_eq!(format!("{:?}", pci_a), format!("{:?}", pci_b));
    // The request that waited is served after the move
    let (req, permit) = b.next().unwrap();
    assert_eq!((req.op, permit.cid()), (Operation::Flush, 9));
}

#[test]
fn queues_that_cannot_move() {
    let a = Env::with_queues();
    let (mut ctrl, pci) = saved(&a);
    // Not at the start of a page
    ctrl.cqs[1].base += 4;
    let mut b = new_env();
    assert_eq!(
        b.nvme.import(&ctrl, pci, &mut b.ctx, &mut b.acc, &mut b.events),
        Err(MigrateStateError::NvmeCompQueue(NvmeError::QueueCreateErr(
            QueueCreateErr::InvalidBaseAddr
        )))
    );
    let (mut ctrl, pci) = saved(&a);
    ctrl.sqs[1].size = 1;
    let mut b = new_env();
    assert_eq!(
        b.nvme.import(&ctrl, pci, &mut b.ctx, &mut b.acc, &mut b.events),
        Err(MigrateStateError::NvmeSubQueue(NvmeError::QueueCreateErr(
            QueueCreateErr::InvalidSize
        )))
    );
    // Completions of admin commands cannot go to another queue
    let (mut ctrl, pci) = saved(&a);
    ctrl.sqs[0].cq_id = 1;
    let mut b = new_env();
    assert_eq!(
        b.nvme.import(&ctrl, pci, &mut b.ctx, &mut b.acc, &mut b.events),
        Err(MigrateStateError::NvmeSubQueue(NvmeError::InvalidCompQueue(1)))
    );
}

#[test]
fn controller_is_a_device_with_one_capability() {
    let nvme = PciNvme::create(&serial(), None, DeviceId(1));
    let regions: Vec<_> =
        nvme.pci_state.regions.iter().map(|r| (r.id, r.start, r.len, r.passthru)).collect();
    assert_eq!(
        regions,
        vec![
            (CfgReg::Std, 0, 0x40, true),
            (CfgReg::CapId(0), 0x40, 1, false),
            (CfgReg::CapNext(0), 0x41, 1, false),
            (CfgReg::CapBody(0), 0x42, 10, true),
        ]
    );
    assert_eq!(nvme.pci_state.caps.len(), 1);
    assert_eq!((nvme.pci_state.caps[0].id, nvme.pci_state.caps[0].offset), (0x11, 0x40));
    assert_eq!(nvme.pci_state.reg_intr_line, 0xff);
    assert_eq!(nvme.pci_state.reg_command.bits(), 0);
    assert_eq!(nvme.state.next_serial, 0);
}

#[test]
fn data_cannot_cross_a_hole_in_memory() {
    let mut e = new_env();
    // Two pages at the end of memory, then a hole of a page, then one more
    assert!(e.acc.mem.add_run(0x10_1000, 0x1000));
    e.enable();
    // The controller's description is a page, which may follow the hole...
    assert_eq!(e.admin(6, 0, 0x10_1000, [1, 0, 0]).1, 0);
    assert_eq!(e.word(0x10_1000), 0x01de_01de);
    // ...but cannot lie in it
    assert_ne!(e.admin(6, 0, 0x10_0000, [1, 0, 0]).1, 0);
}

#[test]
fn each_error_of_configuring() {
    let mut e = new_env();
    let good = Configuration(0).with_iosqes(6).with_iocqes(4);
    let ctrl = &mut e.nvme.state;
    ctrl.ctrl.cc = good;
    assert_eq!(ctrl.configure(good), Ok(()));
    assert_eq!(
        ctrl.configure(good.with_css(IOCommandSet::Reserved(3))),
        Err(NvmeError::UnsupportedCommandSet)
    );
    assert_eq!(ctrl.configure(good.with_mps(1)), Err(NvmeError::UnsupportedMemPageSize));
    assert_eq!(
        ctrl.configure(good.with_ams(ArbitrationMechanism::WeightedRoundRobinWithUrgent)),
        Err(NvmeError::UnsupportedArbitrationMechanism)
    );
    assert_eq!(ctrl.configure(good.with_iosqes(5)), Err(NvmeError::UnsupportedSubQueueEntrySize));
    assert_eq!(ctrl.configure(good.with_iocqes(5)), Err(NvmeError::UnsupportedCompQueueEntrySize));
}

#[test]
fn each_error_of_deleting_queues() {
    let mut e = Env::with_queues();
    let ctrl = &mut e.nvme.state;
    assert_eq!(ctrl.delete_cq(1), Err(NvmeError::AssociatedSubQueuesStillExist(1, 1)));
    assert_eq!(ctrl.delete_cq(2), Err(NvmeError::InvalidCompQueue(2)));
    assert_eq!(ctrl.delete_sq(2), Err(NvmeError::InvalidSubQueue(2)));
    assert_eq!(ctrl.delete_sq(1), Ok(()));
    assert_eq!(ctrl.delete_cq(1), Ok(()));
    assert_eq!(ctrl.delete_cq(1), Err(NvmeError::InvalidCompQueue(1)));
}

#[test]
fn doorbells_of_missing_queues() {
    let mut e = Env::with_queues();
    let before = format!("{:?}", saved(&e).0);
    e.set_reg(0x1010, 1);
    e.set_reg(0x1014, 1);
    assert_eq!(format!("{:?}", saved(&e).0), before);
    // Beyond the end of the queue
    e.set_reg(0x1008, 100);
    assert_eq!(format!("{:?}", saved(&e).0), before);
}

#[test]
fn attributes_of_admin_queues() {
    let a = AdminQueueAttrs(0x0abc_0123);
    assert_eq!(a.asqs(), 0x123);
    assert_eq!(a.acqs(), 0xabc);
}

#[test]
fn device_resets() {
    let mut e = Env::with_queues();
    e.use_vector(1, 0xfee0_0000, 0x42);
    e.events.clear();
    e.nvme.reset(&mut e.ctx, &mut e.events);
    assert_eq!(e.events, vec![NvmeEvent::Block(QueueAction::Dissociate(0))]);
    assert_eq!(e.reg(0x1c), 0);
    // The attributes of the admin queues are kept
    assert_eq!(e.reg(0x24), 15 << 16 | 15);
    // The vector is forgotten
    assert_eq!(e.bar_read(BarN::BAR4, 16, 16), vec![0; 16]);
}

#[test]
fn accesses_that_the_controller_can_take() {
    let read = |off, len| RWOp::Read(ReadOp::from_buf(off, vec![0; len]));
    let write = |off, len| RWOp::Write(WriteOp::from_buf(off, vec![0; len]));
    assert!(takes_bar_access(BarN::BAR0, &read(0, 0x4000)));
    assert!(!takes_bar_access(BarN::BAR0, &read(1, 0x4000)));
    assert!(!takes_bar_access(BarN::BAR0, &read(0x4001, 0)));
    assert!(takes_bar_access(BarN::BAR0, &write(0x14, 1)));
    // Doorbells of I/O queues are written as a whole
    assert!(takes_bar_access(BarN::BAR0, &write(0x1008, 4)));
    assert!(!takes_bar_access(BarN::BAR0, &write(0x1008, 2)));
    assert!(!takes_bar_access(BarN::BAR0, &write(0x1004, 8)));
    assert!(takes_bar_access(BarN::BAR4, &write(0, 4)));
    assert!(!takes_bar_access(BarN::BAR4, &read(usize::MAX, 1)));
    assert!(!takes_bar_access(BarN::BAR1, &read(0, 4)));
}

#[test]
fn saved_states_that_a_controller_can_be_in() {
    let a = Env::with_queues();
    let (mut ctrl, mut pci) = saved(&a);
    assert!(ctrl.is_consistent());
    assert!(pci.bars.is_ok());
    pci.bars.entries[0].size = 0;
    assert!(!pci.bars.is_ok());
    ctrl.sqs[1].head = ctrl.sqs[1].size as u16;
    assert!(!ctrl.is_consistent());
    let (mut ctrl, _) = saved(&a);
    // More entries are promised than there is room for
    ctrl.cqs[1].avail = ctrl.cqs[1].size as u16;
    assert!(!ctrl.is_consistent());
    let (mut ctrl, _) = saved(&a);
    // There is no such interrupt vector
    ctrl.cqs[1].iv = 0x400;
    assert!(!ctrl.is_consistent());
}

#[test]
fn results_of_any_size_are_spread() {
    let mut mem = MemCtx::new(0, 0x3_0000);
    let data: Vec<u8> = (0..0x1_0001).map(|i| (i % 251) as u8).collect();
    let regions = vec![
        GuestRegion(GuestAddr(0x1000), 0x1000),
        GuestRegion(GuestAddr(0x1_0000), 0xf001),
    ];
    assert_eq!(write_admin_result(&mut mem, &regions, &data), Some(()));
    assert_eq!(mem.read_bytes(GuestAddr(0x1000), 0x1000).unwrap(), data[..0x1000]);
    assert_eq!(mem.read_bytes(GuestAddr(0x1_0000), 0xf001).unwrap(), data[0x1000..]);
    assert_eq!(write_admin_result(&mut mem, &regions[..1].to_vec(), &data), None);
}
