//! What a guest can rely on of the registers and the queues of an NVMe
//! controller.
use crate::bitfield::{
    field, law_field_set_above, law_field_set_get, lemma_with_field_range, with_field,
};
use crate::block::QueueAction;
use crate::common::{
    law_le32_round_trip, law_read_after_write, le32, le64, val16, val32, val64, GuestAddr,
    MemAccessView,
};
use crate::hw::nvme::admin::{admin_processed, NvmeModel};
use crate::hw::nvme::bits::{
    sqe_decode, AdminQueueAttrs, ArbitrationMechanism, Capabilities, CompletionQueueEntry,
    Configuration, IOCommandSet, ShutdownStatus, Status,
};
use crate::hw::nvme::cmds::Completion;
use crate::hw::nvme::ctrl::{dissociate_events, CtrlState, CtrlView, NvmeCtrl, NvmeEvent};
use crate::hw::nvme::laws::{law_completion_bytes, law_entry_bytes, sqe_bytes};
use crate::hw::nvme::queue::{
    spec_validate, CompQueueView, Permit, QueueCreateErr, QueueId, QueueState, QueueUpdateError,
    SubQueue,
};
use crate::hw::nvme::regs::{
    admin_cq_rung, admin_sq_rung, cfg_written, ctrl_space_read, ctrl_space_write, ctrl_table,
    notify_events, rung, shutdown_noted, started, CtrlrReg, CtrlrRegs,
};
use crate::hw::nvme::requests::req_completed;
use crate::hw::nvme::NvmeError;
use crate::regmap::{law_whole_register, table_find, RegSpan};
use vstd::prelude::*;

verus! {

// ---------------------------------------------------------------------------
// Fields
// ---------------------------------------------------------------------------

/// Where the fields of the configuration stand.
pub proof fn law_configuration_fields(c: Configuration)
    ensures
        c.spec_enabled() <==> c.0 % 2 == 1,
        c.spec_css().spec_into_raw() == (c.0 / 0x10) % 8,
        c.spec_mps() == (c.0 / 0x80) % 16,
        c.spec_ams().spec_into_raw() == (c.0 / 0x800) % 8,
        c.spec_shn().spec_into_raw() == (c.0 / 0x4000) % 4,
        c.spec_iosqes() == (c.0 / 0x1_0000) % 16,
        c.spec_iocqes() == (c.0 / 0x10_0000) % 16,
        // The values that matter
        c.spec_css() is Nvm <==> (c.0 / 0x10) % 8 == 0,
        c.spec_ams() is RoundRobin <==> (c.0 / 0x800) % 8 == 0,
        c.spec_shn() is NotRequested <==> (c.0 / 0x4000) % 4 == 0,
{
}

/// Where the fields of the status and of the attributes of the admin queues
/// stand.
pub proof fn law_status_fields(s: Status, a: AdminQueueAttrs)
    ensures
        s.spec_ready() <==> s.0 % 2 == 1,
        s.spec_cfs() <==> (s.0 / 2) % 2 == 1,
        s.spec_shst().spec_into_raw() == (s.0 / 4) % 4,
        s.spec_shst() is Normal <==> (s.0 / 4) % 4 == 0,
        s.spec_shst() is Complete <==> (s.0 / 4) % 4 == 2,
        a.spec_asqs() == a.0 % 0x1000,
        a.spec_acqs() == (a.0 / 0x1_0000) % 0x1000,
{
}

/// Setting a field of the status sets its bits and leaves the others.
pub proof fn law_status_set(s: Status)
    ensures
        s.spec_with_ready(true).0 == s.0 - s.0 % 2 + 1,
        s.spec_with_cfs(true).0 == s.0 + 2 * (1 - (s.0 / 2) % 2),
        s.spec_with_shst(ShutdownStatus::Complete).0 == s.0 + 4 * (2 - (s.0 / 4) % 4),
        s.spec_with_shst(ShutdownStatus::Normal).0 == s.0 - 4 * ((s.0 / 4) % 4),
{
}

/// What a controller says that it can do: queues of 65536 entries that must be
/// contiguous, and the NVM command set.
pub proof fn law_capabilities()
    ensures
        Capabilities(0).spec_with_mqes(0xffff).spec_with_cqr(true).spec_with_css_nvm(true).0
            == 0x0000_0020_0001_ffff,
{
}

// ---------------------------------------------------------------------------
// Registers
// ---------------------------------------------------------------------------

/// Where the registers stand.
pub proof fn law_registers_found()
    ensures
        table_find(ctrl_table(), 0, 0, 0x00) == Some(
            RegSpan { id: CtrlrReg::CtrlrCaps, start: 0x00, len: 8, passthru: false },
        ),
        table_find(ctrl_table(), 0, 0, 0x08) == Some(
            RegSpan { id: CtrlrReg::Version, start: 0x08, len: 4, passthru: false },
        ),
        table_find(ctrl_table(), 0, 0, 0x0c) == Some(
            RegSpan { id: CtrlrReg::IntrMaskSet, start: 0x0c, len: 4, passthru: false },
        ),
        table_find(ctrl_table(), 0, 0, 0x10) == Some(
            RegSpan { id: CtrlrReg::IntrMaskClear, start: 0x10, len: 4, passthru: false },
        ),
        table_find(ctrl_table(), 0, 0, 0x14) == Some(
            RegSpan { id: CtrlrReg::CtrlrCfg, start: 0x14, len: 4, passthru: false },
        ),
        table_find(ctrl_table(), 0, 0, 0x1c) == Some(
            RegSpan { id: CtrlrReg::CtrlrStatus, start: 0x1c, len: 4, passthru: false },
        ),
        table_find(ctrl_table(), 0, 0, 0x24) == Some(
            RegSpan { id: CtrlrReg::AdminQueueAttr, start: 0x24, len: 4, passthru: false },
        ),
        table_find(ctrl_table(), 0, 0, 0x28) == Some(
            RegSpan { id: CtrlrReg::AdminSubQAddr, start: 0x28, len: 8, passthru: false },
        ),
        table_find(ctrl_table(), 0, 0, 0x30) == Some(
            RegSpan { id: CtrlrReg::AdminCompQAddr, start: 0x30, len: 8, passthru: false },
        ),
        table_find(ctrl_table(), 0, 0, 0x1000) == Some(
            RegSpan { id: CtrlrReg::DoorBellAdminSQ, start: 0x1000, len: 4, passthru: false },
        ),
        table_find(ctrl_table(), 0, 0, 0x1004) == Some(
            RegSpan { id: CtrlrReg::DoorBellAdminCQ, start: 0x1004, len: 4, passthru: false },
        ),
{
    reveal_with_fuel(table_find, 16);
}

/// What the registers read as. Those that describe the admin queues can only be
/// read while the controller is not enabled.
pub proof fn law_registers_read(m: NvmeModel, four: Seq<u8>, eight: Seq<u8>)
    requires
        four.len() == 4,
        eight.len() == 8,
    ensures
        ctrl_space_read(m, 0x00, eight) == le64(m.ctrl.ctrl.cap.0),
        // Version 1.0
        ctrl_space_read(m, 0x08, four) == le32(0x0001_0000),
        ctrl_space_read(m, 0x14, four) == le32(m.ctrl.ctrl.cc.0),
        ctrl_space_read(m, 0x1c, four) == le32(m.ctrl.ctrl.csts.0),
        m.ctrl.ctrl.cc.0 % 2 == 0 ==> {
            &&& ctrl_space_read(m, 0x24, four) == le32(m.ctrl.ctrl.aqa.0)
            &&& ctrl_space_read(m, 0x28, eight) == le64(m.ctrl.ctrl.admin_sq_base)
            &&& ctrl_space_read(m, 0x30, eight) == le64(m.ctrl.ctrl.admin_cq_base)
        },
{
    law_registers_found();
    law_configuration_fields(m.ctrl.ctrl.cc);
    let t = ctrl_table();
    law_whole_register::<CtrlrRegs, NvmeCtrl>(m, table_find(t, 0, 0, 0x00)->0, eight, eight);
    law_whole_register::<CtrlrRegs, NvmeCtrl>(m, table_find(t, 0, 0, 0x08)->0, four, four);
    law_whole_register::<CtrlrRegs, NvmeCtrl>(m, table_find(t, 0, 0, 0x14)->0, four, four);
    law_whole_register::<CtrlrRegs, NvmeCtrl>(m, table_find(t, 0, 0, 0x1c)->0, four, four);
    law_whole_register::<CtrlrRegs, NvmeCtrl>(m, table_find(t, 0, 0, 0x24)->0, four, four);
    law_whole_register::<CtrlrRegs, NvmeCtrl>(m, table_find(t, 0, 0, 0x28)->0, eight, eight);
    law_whole_register::<CtrlrRegs, NvmeCtrl>(m, table_find(t, 0, 0, 0x30)->0, eight, eight);
}

/// What is written to the registers of the admin queues is kept while the
/// controller is not enabled, but for what an address has below its page. Each
/// write leaves all else as it was. While the controller is enabled, such writes
/// are ignored, and those to registers that can only be read always are.
pub proof fn law_registers_written(m: NvmeModel, four: Seq<u8>, eight: Seq<u8>)
    requires
        four.len() == 4,
        eight.len() == 8,
    ensures
        m.ctrl.ctrl.cc.0 % 2 == 0 ==> {
            let r = m.ctrl.ctrl;
            &&& ctrl_space_write(m, 0x24, four) == (NvmeModel {
                ctrl: CtrlView {
                    ctrl: CtrlState { aqa: AdminQueueAttrs(val32(four)), ..r },
                    ..m.ctrl
                },
                ..m
            })
            &&& ctrl_space_write(m, 0x28, eight) == (NvmeModel {
                ctrl: CtrlView {
                    ctrl: CtrlState {
                        admin_sq_base: (val64(eight) - val64(eight) % 4096) as u64,
                        ..r
                    },
                    ..m.ctrl
                },
                ..m
            })
            &&& ctrl_space_write(m, 0x30, eight) == (NvmeModel {
                ctrl: CtrlView {
                    ctrl: CtrlState {
                        admin_cq_base: (val64(eight) - val64(eight) % 4096) as u64,
                        ..r
                    },
                    ..m.ctrl
                },
                ..m
            })
        },
        m.ctrl.ctrl.cc.0 % 2 == 1 ==> {
            &&& ctrl_space_write(m, 0x24, four) == m
            &&& ctrl_space_write(m, 0x28, eight) == m
            &&& ctrl_space_write(m, 0x30, eight) == m
        },
        ctrl_space_write(m, 0x00, eight) == m,
        ctrl_space_write(m, 0x08, four) == m,
        ctrl_space_write(m, 0x1c, four) == m,
        ctrl_space_write(m, 0x14, four) == cfg_written(m, Configuration(val32(four))).0,
{
    law_registers_found();
    law_configuration_fields(m.ctrl.ctrl.cc);
    let t = ctrl_table();
    law_whole_register::<CtrlrRegs, NvmeCtrl>(m, table_find(t, 0, 0, 0x00)->0, eight, eight);
    law_whole_register::<CtrlrRegs, NvmeCtrl>(m, table_find(t, 0, 0, 0x08)->0, four, four);
    law_whole_register::<CtrlrRegs, NvmeCtrl>(m, table_find(t, 0, 0, 0x14)->0, four, four);
    law_whole_register::<CtrlrRegs, NvmeCtrl>(m, table_find(t, 0, 0, 0x1c)->0, four, four);
    law_whole_register::<CtrlrRegs, NvmeCtrl>(m, table_find(t, 0, 0, 0x24)->0, four, four);
    law_whole_register::<CtrlrRegs, NvmeCtrl>(m, table_find(t, 0, 0, 0x28)->0, eight, eight);
    law_whole_register::<CtrlrRegs, NvmeCtrl>(m, table_find(t, 0, 0, 0x30)->0, eight, eight);
}

// ---------------------------------------------------------------------------
// Life of the controller
// ---------------------------------------------------------------------------

/// Whether a queue may be created: it starts at a page and has at least 2
/// entries, and at most 65536, or 4096 if it is an admin queue.
pub proof fn law_queue_limits(is_admin: bool, base: GuestAddr, size: u32)
    ensures
        spec_validate(is_admin, base, size) is Ok <==> base.0 % 4096 == 0 && 2 <= size && size
            <= if is_admin {
            4096
        } else {
            0x1_0000u32
        },
        spec_validate(is_admin, base, size) == Err::<(), QueueCreateErr>(
            QueueCreateErr::InvalidBaseAddr,
        ) <==> base.0 % 4096 != 0,
{
}

/// A controller that is enabled with admin queues that can be created, with the
/// entry sizes of 64 and 16 bytes that it needs, pages that it supports, round
/// robin arbitration and the NVM command set, becomes ready. Its admin queues
/// are then empty, at the addresses and of the sizes that the guest has set.
#[verifier::rlimit(40)]
pub proof fn law_enable(m: NvmeModel, new: Configuration)
    requires
        m.ctrl.wf(),
        m.ctrl.msix_attached,
        m.ctrl.ctrl.cc.0 % 2 == 0,
        m.ctrl.cqs[0] is None,
        m.ctrl.sqs[0] is None,
        m.ctrl.ctrl_ident.sqes.0 % 16 == 6,
        m.ctrl.ctrl_ident.cqes.0 % 16 == 4,
        m.ctrl.ctrl.cap.spec_mpsmin() <= (new.0 / 0x80) % 16 <= m.ctrl.ctrl.cap.spec_mpsmax(),
        new.0 % 2 == 1,
        (new.0 / 0x10) % 8 == 0,
        (new.0 / 0x800) % 8 == 0,
        (new.0 / 0x4000) % 4 == 0,
        (new.0 / 0x1_0000) % 16 == 6,
        (new.0 / 0x10_0000) % 16 == 4,
        m.ctrl.ctrl.admin_sq_base % 4096 == 0,
        m.ctrl.ctrl.admin_cq_base % 4096 == 0,
        m.ctrl.ctrl.aqa.0 % 0x1000 >= 1,
        (m.ctrl.ctrl.aqa.0 / 0x1_0000) % 0x1000 >= 1,
    ensures
        ({
            let (n, e) = cfg_written(m, new);
            &&& e is None
            &&& n.ctrl.ctrl.cc.0 % 2 == 1
            &&& n.ctrl.ctrl.csts.0 % 2 == 1
            &&& n.ctrl.sqs[0] matches Some(s) && {
                &&& s.base.0 == m.ctrl.ctrl.admin_sq_base
                &&& s.state.size == m.ctrl.ctrl.aqa.0 % 0x1000 + 1
                &&& s.state.head == 0 && s.state.tail == 0
                &&& s.cq_id == 0
            }
            &&& n.ctrl.cqs[0] matches Some(q) && {
                &&& q.base.0 == m.ctrl.ctrl.admin_cq_base
                &&& q.state.queue.size == (m.ctrl.ctrl.aqa.0 / 0x1_0000) % 0x1000 + 1
                &&& q.state.queue.head == 0 && q.state.queue.tail == 0
                &&& q.iv == 0
                &&& q.sqs == seq![0u16]
            }
        }),
{
    reveal(cfg_written);
    law_configuration_fields(new);
    law_configuration_fields(m.ctrl.ctrl.cc);
    law_status_fields(m.ctrl.ctrl.csts, m.ctrl.ctrl.aqa);
    let (v1, e1) = m.ctrl.spec_configure(new);
    assert(e1 is None);
    lemma_configured(m.ctrl, new);
    assert(!v1.ctrl.cc.spec_enabled());
    let (v2, acc, e2) = v1.spec_create_admin_queues(m.acc);
    assert(e2 is None);
    law_status_set(v2.ctrl.csts);
    assert(v2.cqs[0]->0.sqs =~= seq![0u16]);
    lemma_started(v2);
}

/// A field that stands above the lowest bit of a register leaves that bit.
proof fn lemma_lowest_bit(x: u32, lo: int, width: int, v: int)
    requires
        2 <= lo,
        lo % 2 == 0,
        0 <= v < width,
        0x1_0000_0000int % (lo * width) == 0,
    ensures
        (with_field(x as int, lo, width, v) as u32) % 2 == x % 2,
{
    law_field_set_above(x as int, lo, width, v, 1, 2);
    lemma_with_field_range(x as int, lo, width, v, 0x1_0000_0000);
    assert(field(x as int, 1, 2) == x % 2);
}

/// The other fields stand apart from the enable bit.
proof fn lemma_other_fields(c: Configuration, n: u8, a: ArbitrationMechanism, css: IOCommandSet)
    ensures
        c.spec_with_iocqes(n).0 % 2 == c.0 % 2,
        c.spec_with_iosqes(n).0 % 2 == c.0 % 2,
        c.spec_with_mps(n).0 % 2 == c.0 % 2,
        c.spec_with_ams(a).0 % 2 == c.0 % 2,
        c.spec_with_css(css).0 % 2 == c.0 % 2,
{
    lemma_lowest_bit(c.0, 0x10_0000, 0x10, n as int % 0x10);
    lemma_lowest_bit(c.0, 0x1_0000, 0x10, n as int % 0x10);
    lemma_lowest_bit(c.0, 0x80, 0x10, n as int % 0x10);
    lemma_lowest_bit(c.0, 0x800, 0x8, a.spec_into_raw() as int % 0x8);
    lemma_lowest_bit(c.0, 0x10, 0x8, css.spec_into_raw() as int % 0x8);
}

/// Changing the other fields neither enables nor disables a controller.
proof fn lemma_configured(v: CtrlView, new: Configuration)
    ensures
        v.configured(new).0.0 % 2 == v.ctrl.cc.0 % 2,
{
    let c0 = v.ctrl.cc;
    lemma_other_fields(c0, new.spec_iocqes(), new.spec_ams(), new.spec_css());
    let c1 = if new.spec_iocqes() > 0 {
        c0.spec_with_iocqes(new.spec_iocqes())
    } else {
        c0
    };
    lemma_other_fields(c1, new.spec_iosqes(), new.spec_ams(), new.spec_css());
    let c2 = if new.spec_iosqes() > 0 {
        c1.spec_with_iosqes(new.spec_iosqes())
    } else {
        c1
    };
    let c3 = c2.spec_with_ams(new.spec_ams());
    let c4 = c3.spec_with_mps(new.spec_mps());
    lemma_other_fields(c2, new.spec_mps(), new.spec_ams(), new.spec_css());
    lemma_other_fields(c3, new.spec_mps(), new.spec_ams(), new.spec_css());
    lemma_other_fields(c4, new.spec_mps(), new.spec_ams(), new.spec_css());
}

/// The enable and ready bits of a controller that starts.
proof fn lemma_started(v: CtrlView)
    ensures
        v.ctrl.cc.spec_with_enabled(true).0 % 2 == 1,
        v.ctrl.csts.spec_with_ready(true).0 % 2 == 1,
        v.ctrl.csts.spec_with_ready(true).spec_with_shst(ShutdownStatus::Complete).0 % 2 == 1,
        v.ctrl.csts.spec_with_ready(true).spec_with_shst(ShutdownStatus::Normal).0 % 2 == 1,
{
}

/// Changing the sizes of entries does not enable a controller.
proof fn lemma_sizes_set(c0: Configuration, comp: u8, sub: u8)
    requires
        c0.0 % 2 == 0,
    ensures
        ({
            let c1 = if comp > 0 {
                c0.spec_with_iocqes(comp)
            } else {
                c0
            };
            let c2 = if sub > 0 {
                c1.spec_with_iosqes(sub)
            } else {
                c1
            };
            !c2.spec_enabled()
        }),
{
    let (a, s) = (ArbitrationMechanism::RoundRobin, IOCommandSet::Nvm);
    lemma_other_fields(c0, comp, a, s);
    let c1 = if comp > 0 {
        c0.spec_with_iocqes(comp)
    } else {
        c0
    };
    lemma_other_fields(c1, sub, a, s);
    law_configuration_fields(c0);
    law_configuration_fields(c1);
    law_configuration_fields(c1.spec_with_iosqes(sub));
}

/// What a controller that is not enabled does not take as its configuration:
/// entries of other sizes than 16 and 64 bytes, an arbitration other than round
/// robin, pages out of the range that it supports, and other command sets. What
/// is wrong first is told, and the status then tells of a fatal error (bit 1).
#[verifier::rlimit(60)]
pub proof fn law_configuration_refused(v: CtrlView, cc: Configuration)
    requires
        v.ctrl.cc.0 % 2 == 0,
        v.ctrl_ident.sqes.0 % 16 == 6,
        v.ctrl_ident.cqes.0 % 16 == 4,
    ensures
        ({
            let (comp, sub) = ((cc.0 / 0x10_0000) % 16, (cc.0 / 0x1_0000) % 16);
            let page = (cc.0 / 0x80) % 16;
            let (n, e) = v.spec_configure(cc);
            &&& e == if comp != 0 && comp != 4 {
                Some(NvmeError::UnsupportedCompQueueEntrySize)
            } else if sub != 0 && sub != 6 {
                Some(NvmeError::UnsupportedSubQueueEntrySize)
            } else if (cc.0 / 0x800) % 8 != 0 {
                Some(NvmeError::UnsupportedArbitrationMechanism)
            } else if page < v.ctrl.cap.spec_mpsmin() || page > v.ctrl.cap.spec_mpsmax() {
                Some(NvmeError::UnsupportedMemPageSize)
            } else if (cc.0 / 0x10) % 8 != 0 {
                Some(NvmeError::UnsupportedCommandSet)
            } else {
                None
            }
            &&& e is Some ==> (n.ctrl.csts.0 / 2) % 2 == 1
            &&& e is None ==> n.ctrl.csts == v.ctrl.csts
            &&& n.cqs == v.cqs
            &&& n.sqs == v.sqs
        }),
{
    law_configuration_fields(cc);
    lemma_sizes_set(v.ctrl.cc, cc.spec_iocqes(), cc.spec_iosqes());
    assert(v.ctrl_ident.sqes.spec_required() == 6);
    assert(v.ctrl_ident.cqes.spec_required() == 4);
    assert((v.ctrl.csts.spec_with_cfs(true).0 / 2) % 2 == 1) by {
        law_status_set(v.ctrl.csts);
    }
}

/// The block layer is told of each I/O queue that goes away.
pub proof fn law_queues_dissociated(sqs: Seq<Option<SubQueue>>, n: int, i: int)
    requires
        0 <= n <= 16,
    ensures
        1 <= i < n && sqs[i] is Some ==> dissociate_events(sqs, n).contains(
            NvmeEvent::Block(QueueAction::Dissociate((i - 1) as u16)),
        ),
        forall|k: int|
            0 <= k < dissociate_events(sqs, n).len() ==> {
                &&& #[trigger] dissociate_events(sqs, n)[k] matches NvmeEvent::Block(
                    QueueAction::Dissociate(q),
                )
                &&& q + 1 < n
                &&& sqs[q + 1] is Some
            },
    decreases n,
{
    if n > 0 {
        law_queues_dissociated(sqs, n - 1, i);
        let all = dissociate_events(sqs, n);
        let rest = dissociate_events(sqs, n - 1);
        let e = NvmeEvent::Block(QueueAction::Dissociate((i - 1) as u16));
        if 1 <= i < n && sqs[i] is Some {
            if i == n - 1 {
                assert(all.last() == e);
            } else {
                let k = choose|k: int| 0 <= k < rest.len() && rest[k] == e;
                assert(all[k] == e);
            }
        }
        assert forall|k: int| 0 <= k < all.len() implies {
            &&& #[trigger] all[k] matches NvmeEvent::Block(QueueAction::Dissociate(q))
            &&& q + 1 < n
            &&& sqs[q + 1] is Some
        } by {
            if k < rest.len() {
                assert(all[k] == rest[k]);
            }
        }
    }
}

/// Queues that waited for room in a completion queue go on when its doorbell is
/// rung: the block layer is told of each, with how much is in it.
pub proof fn law_waiting_go_on(v: CtrlView, corked: Seq<QueueId>, n: int, i: int)
    requires
        0 <= i < n <= corked.len(),
        1 <= corked[i] < 16,
        v.sqs[corked[i] as int] is Some,
        (v.sqs[corked[i] as int]->0).wf(),
    ensures
        ({
            let s = (v.sqs[corked[i] as int]->0).state;
            let held = if s.tail < s.head {
                s.tail + s.size - s.head
            } else {
                s.tail - s.head
            };
            notify_events(v, corked, n).contains(
                NvmeEvent::Block(QueueAction::Notify((corked[i] - 1) as u16, held as u16)),
            )
        }),
    decreases n,
{
    let s = (v.sqs[corked[i] as int]->0).state;
    let e = NvmeEvent::Block(QueueAction::Notify((corked[i] - 1) as u16, s.occupied()));
    let all = notify_events(v, corked, n);
    if i == n - 1 {
        assert(all.last() == e);
    } else {
        law_waiting_go_on(v, corked, n - 1, i);
        let rest = notify_events(v, corked, n - 1);
        let k = choose|k: int| 0 <= k < rest.len() && rest[k] == e;
        assert(all[k] == e);
    }
}

/// A ring of a doorbell of the admin queues is refused by a controller that is
/// not enabled, and where the index is not one of the queue.
pub proof fn law_admin_doorbells_refused(m: NvmeModel, val: u16)
    ensures
        m.ctrl.ctrl.cc.0 % 2 == 0 ==> admin_sq_rung(m, val) == (
            m,
            Some(NvmeError::InvalidSubQueue(0)),
        ) && admin_cq_rung(m, val) == (m, Some(NvmeError::InvalidCompQueue(0))),
        m.ctrl.ctrl.cc.0 % 2 == 1 && m.ctrl.sqs[0] is Some && val >= (
        m.ctrl.sqs[0]->0).state.size ==> admin_sq_rung(m, val) == (
            m,
            Some(NvmeError::QueueUpdateError(QueueUpdateError::InvalidEntry)),
        ),
        m.ctrl.ctrl.cc.0 % 2 == 1 && m.ctrl.cqs[0] is Some && val >= (
        m.ctrl.cqs[0]->0).state.queue.size ==> admin_cq_rung(m, val) == (
            m,
            Some(NvmeError::QueueUpdateError(QueueUpdateError::InvalidEntry)),
        ),
{
    reveal(admin_sq_rung);
    reveal(admin_cq_rung);
    law_configuration_fields(m.ctrl.ctrl.cc);
}

/// A ring of the doorbell of the admin submission queue has the commands up to
/// its tail carried out.
pub proof fn law_admin_doorbell(m: NvmeModel, s: SubQueue, val: u16)
    requires
        m.ctrl.ctrl.cc.0 % 2 == 1,
        m.ctrl.sqs.len() == 16,
        m.ctrl.sqs[0] == Some(s),
        s.wf(),
        s.state.db_buf is None,
        s.state.head == s.state.tail,
        val < s.state.size,
    ensures
        admin_sq_rung(m, val) == (
            admin_processed(
                NvmeModel {
                    ctrl: CtrlView {
                        sqs: m.ctrl.sqs.update(
                            0,
                            Some(SubQueue { state: QueueState { tail: val, ..s.state }, ..s }),
                        ),
                        ..m.ctrl
                    },
                    ..m
                },
            ),
            None::<NvmeError>,
        ),
{
    reveal(admin_sq_rung);
    law_configuration_fields(m.ctrl.ctrl.cc);
    assert(s.state.pushed_to(val) == Ok::<QueueState, QueueUpdateError>(
        QueueState { tail: val, ..s.state },
    ));
}

/// A controller that is disabled loses all of its queues and is not ready.
pub proof fn law_disable(m: NvmeModel, new: Configuration, i: int)
    requires
        m.ctrl.ctrl.cc.0 % 2 == 1,
        new.0 % 2 == 0,
        cfg_written(m, new).1 is None,
        0 <= i < 16,
    ensures
        ({
            let n = cfg_written(m, new).0;
            &&& n.ctrl.ctrl.cc.0 == 0
            &&& n.ctrl.ctrl.csts.0 % 4 == 0
            &&& n.ctrl.cqs[i] is None
            &&& n.ctrl.sqs[i] is None
            &&& n.ctrl.doorbell_buf is None
            &&& n.ctrl.ctrl.aqa == m.ctrl.ctrl.aqa
            &&& n.ctrl.ctrl.admin_sq_base == m.ctrl.ctrl.admin_sq_base
            &&& n.ctrl.ctrl.admin_cq_base == m.ctrl.ctrl.admin_cq_base
        }),
{
    reveal(cfg_written);
    law_configuration_fields(new);
    law_configuration_fields(m.ctrl.ctrl.cc);
    lemma_configured(m.ctrl, new);
    let v1 = m.ctrl.spec_configure(new).0;
    law_configuration_fields(v1.ctrl.cc);
    law_status_set(Status(0));
}

/// What noting a shutdown does to the status.
proof fn lemma_shutdown(v: CtrlView, new: Configuration)
    requires
        (v.ctrl.csts.0 / 4) % 4 == 0 || (v.ctrl.csts.0 / 4) % 4 == 2,
    ensures
        (shutdown_noted(v, new).ctrl.csts.0 / 4) % 4 == if (new.0 / 0x4000) % 4 == 0 {
            0
        } else {
            2u32
        },
{
    law_configuration_fields(new);
    law_status_fields(v.ctrl.csts, v.ctrl.aqa);
    let x = v.ctrl.csts.0 as int;
    law_field_set_get(x, 4, 4, 2);
    law_field_set_get(x, 4, 4, 0);
    lemma_with_field_range(x, 4, 4, 2, 0x1_0000_0000);
    lemma_with_field_range(x, 4, 4, 0, 0x1_0000_0000);
}

/// A guest that asks for a shutdown is told that it is complete, and one that no
/// longer does that there is none.
pub proof fn law_shutdown(m: NvmeModel, new: Configuration)
    requires
        cfg_written(m, new).1 is None,
        (m.ctrl.ctrl.csts.0 / 4) % 4 == 0 || (m.ctrl.ctrl.csts.0 / 4) % 4 == 2,
    ensures
        (cfg_written(m, new).0.ctrl.ctrl.csts.0 / 4) % 4 == if (new.0 / 0x4000) % 4 == 0 {
            0
        } else {
            2u32
        },
{
    reveal(cfg_written);
    let v1 = if m.ctrl.ctrl.cc != new {
        m.ctrl.spec_configure(new).0
    } else {
        m.ctrl
    };
    assert(v1.ctrl.csts == m.ctrl.ctrl.csts);
    let v2 = v1.spec_create_admin_queues(m.acc).0;
    assert(v2.ctrl == v1.ctrl);
    law_status_set(v2.ctrl.csts);
    lemma_shutdown(v1, new);
    lemma_shutdown(started(v2), new);
    lemma_shutdown(v1.spec_reset(), new);
}

// ---------------------------------------------------------------------------
// Queues
// ---------------------------------------------------------------------------

/// A write to the doorbell of an I/O submission queue sets the tail of that
/// queue, and of no other, if the queue has room for what is added. The block
/// layer is told how much is in the queue.
pub proof fn law_submission_doorbell(m: NvmeModel, qid: u16, val: u32)
    requires
        m.ctrl.wf(),
        1 <= qid <= 15,
    ensures
        ({
            let n = ctrl_space_write(m, 0x1000 + 8 * qid, le32(val));
            let tail = val % 0x1_0000;
            match m.ctrl.sqs[qid as int] {
                Some(s) if m.ctrl.ctrl.cc.0 % 2 == 1 && tail < s.state.size && (s.state.size + tail
                    - s.state.tail) % s.state.size as int + (s.state.size + s.state.tail
                    - s.state.head) % s.state.size as int <= s.state.size - 1 => {
                    &&& n.ctrl.sqs == m.ctrl.sqs.update(
                        qid as int,
                        Some(
                            SubQueue {
                                state: QueueState { tail: tail as u16, ..s.state },
                                ..s
                            },
                        ),
                    )
                    &&& n.ctrl.cqs == m.ctrl.cqs
                    &&& n.acc == m.acc
                    &&& n.events == m.events.push(
                        NvmeEvent::Block(
                            QueueAction::Notify(
                                (qid - 1) as u16,
                                ((s.state.size + tail - s.state.head) % s.state.size as int) as u16,
                            ),
                        ),
                    )
                },
                _ => n == m,
            }
        }),
{
    reveal(rung);
    law_le32_round_trip(val, le32(val));
    assert(le32(val).take(4) =~= le32(val));
    law_configuration_fields(m.ctrl.ctrl.cc);
    assert(m.ctrl.sq_ok(qid as int));
    if let Some(s) = m.ctrl.sqs[qid as int] {
        let tail = val % 0x1_0000;
        if tail < s.state.size {
            lemma_ring(s.state.size as int, tail as int, s.state.tail as int);
            lemma_ring(s.state.size as int, s.state.tail as int, s.state.head as int);
            lemma_ring(s.state.size as int, tail as int, s.state.head as int);
        }
    }
}

/// Distances in a ring.
proof fn lemma_ring(size: int, a: int, b: int)
    requires
        0 <= a < size,
        0 <= b < size,
    ensures
        (size + a - b) % size == if b > a {
            a + size - b
        } else {
            a - b
        },
{
    if b > a {
        vstd::arithmetic::div_mod::lemma_small_mod((a + size - b) as nat, size as nat);
    } else {
        vstd::arithmetic::div_mod::lemma_mod_add_multiples_vanish(a - b, size);
        vstd::arithmetic::div_mod::lemma_small_mod((a - b) as nat, size as nat);
    }
}

/// A write to the doorbell of an I/O completion queue frees the entries up to
/// the one that it names, if they are occupied.
pub proof fn law_completion_doorbell(m: NvmeModel, qid: u16, val: u32)
    requires
        m.ctrl.wf(),
        1 <= qid <= 15,
    ensures
        ({
            let n = ctrl_space_write(m, 0x1000 + 8 * qid + 4, le32(val));
            let head = val % 0x1_0000;
            match m.ctrl.cqs[qid as int] {
                Some(q) if m.ctrl.ctrl.cc.0 % 2 == 1 && head < q.state.queue.size && (
                q.state.queue.size + head - q.state.queue.head) % q.state.queue.size as int <= (
                q.state.queue.size + q.state.queue.tail - q.state.queue.head)
                    % q.state.queue.size as int => {
                    &&& n.ctrl.sqs == m.ctrl.sqs
                    &&& n.acc == m.acc
                    &&& n.ctrl.cqs.len() == 16
                    &&& forall|i: int|
                        0 <= i < 16 && i != qid ==> #[trigger] n.ctrl.cqs[i] == m.ctrl.cqs[i]
                    &&& n.ctrl.cqs[qid as int] matches Some(t) && {
                        &&& t.state.queue.head == head
                        &&& t.state.queue.tail == q.state.queue.tail
                        &&& t.state.avail == q.state.avail + (q.state.queue.size + head
                            - q.state.queue.head) % q.state.queue.size as int
                        &&& t.state.phase == q.state.phase
                        // Those that waited for room need not wait any longer
                        &&& t.corked.len() == 0
                        &&& t.sqs == q.sqs
                    }
                },
                _ => n == m,
            }
        }),
{
    reveal(rung);
    law_le32_round_trip(val, le32(val));
    assert(le32(val).take(4) =~= le32(val));
    law_configuration_fields(m.ctrl.ctrl.cc);
    assert(m.ctrl.cq_ok(qid as int));
    if let Some(q) = m.ctrl.cqs[qid as int] {
        let head = val % 0x1_0000;
        if head < q.state.queue.size {
            let size = q.state.queue.size as int;
            lemma_ring(size, head as int, q.state.queue.head as int);
            lemma_ring(size, q.state.queue.tail as int, q.state.queue.head as int);
        }
    }
}

/// The entry that is taken off a submission queue is the one that the guest put
/// at the head of the queue, 64 bytes for each entry before it, and the head
/// moves on by one.
pub proof fn law_entry_taken(s: SubQueue, q: CompQueueView, acc: MemAccessView)
    requires
        s.wf(),
        q.wf(),
        acc.accessible,
        s.state.db_buf is None,
        s.state.head != s.state.tail,
        q.state.avail > 0,
        s.base.0 + 64 * s.state.head + 64 <= u64::MAX,
        acc.mem.covers(GuestAddr((s.base.0 + 64 * s.state.head) as u64), 64),
    ensures
        ({
            let out = s.spec_pop(q, acc);
            let at = GuestAddr((s.base.0 + 64 * s.state.head) as u64);
            &&& out.got matches Some((e, permit, idx)) && {
                &&& acc.mem.at(at, 64) == sqe_bytes(e)
                &&& permit.cid == e.cdw0 / 0x1_0000
                &&& permit.sq_id == s.id
                &&& permit.cq_id == q.id
                &&& idx == s.state.head
            }
            &&& out.sq.state.head == (s.state.head + 1) % s.state.size as int
            &&& out.sq.state.tail == s.state.tail
            &&& out.acc == acc
            // Room for its completion is kept
            &&& out.cq.state.avail == q.state.avail - 1
        }),
{
    let at = GuestAddr((s.base.0 + 64 * s.state.head) as u64);
    let b = acc.mem.at(at, 64);
    crate::common::lemma_first_run(acc.mem.runs, at, 64, 0);
    assert(b.len() == 64);
    law_entry_bytes(b);
    assert(s.entry_addr(s.state.head) == at);
    assert(s.state.sq_db_read(acc.mem) == s.state);
    assert(s.head_taken(acc.mem).2 == Some((sqe_decode(b), s.state.head)));
    if s.state.head + 1 < s.state.size {
        vstd::arithmetic::div_mod::lemma_small_mod(
            (s.state.head + 1) as nat,
            s.state.size as nat,
        );
    } else {
        vstd::arithmetic::div_mod::lemma_mod_self_0(s.state.size as int);
    }
}

/// The completion of a command is found by the guest at the tail of the
/// completion queue, 16 bytes for each entry before it: the result, the queue
/// that the command came from and its head, the command, its status, and the
/// phase tag of the round. The tail moves on by one, and the interrupt of the
/// queue is signalled.
#[verifier::rlimit(40)]
pub proof fn law_completion_posted(
    p: Permit,
    comp: Completion,
    q: CompQueueView,
    s: SubQueue,
    acc: MemAccessView,
)
    requires
        q.wf(),
        q.state.outstanding() > 0,
        acc.accessible,
        q.state.queue.db_buf is None,
        comp.status % 2 == 0,
        q.base.0 + 16 * q.state.queue.tail + 16 <= u64::MAX,
        acc.mem.covers(GuestAddr((q.base.0 + 16 * q.state.queue.tail) as u64), 16),
    ensures
        ({
            let (t, a, iv) = p.spec_complete(comp, q, Some(s), acc);
            let b = a.mem.at(GuestAddr((q.base.0 + 16 * q.state.queue.tail) as u64), 16);
            &&& val32(b.subrange(0, 4)) == comp.dw0
            &&& val16(b.subrange(8, 10)) == s.state.head
            &&& val16(b.subrange(10, 12)) == s.id
            &&& val16(b.subrange(12, 14)) == p.cid
            &&& val16(b.subrange(14, 16)) == comp.status + if q.state.phase {
                1int
            } else {
                0
            }
            &&& t.state.queue.tail == (q.state.queue.tail + 1) % q.state.queue.size as int
            &&& t.state.queue.head == q.state.queue.head
            &&& t.state.phase == (q.state.phase != (q.state.queue.tail == q.state.queue.size - 1))
            &&& iv == Some(q.iv)
        }),
{
    let at = GuestAddr((q.base.0 + 16 * q.state.queue.tail) as u64);
    let cqe = CompletionQueueEntry {
        sqid: s.id,
        sqhd: s.state.head,
        ..CompletionQueueEntry::spec_new(comp, p.cid)
    }.with_phase(q.state.phase);
    law_completion_bytes(cqe);
    law_read_after_write(acc.mem, at, cqe.encode());
    let size = q.state.queue.size as int;
    if q.state.queue.tail + 1 < size {
        vstd::arithmetic::div_mod::lemma_small_mod(
            (q.state.queue.tail + 1) as nat,
            size as nat,
        );
    } else {
        vstd::arithmetic::div_mod::lemma_mod_self_0(size);
    }
}

/// A request that has ended is completed to the completion queue that its
/// permit names, if that is still the one that gave it; a permit of a queue that
/// is gone does nothing. If the submission queue is gone, the room is given back.
pub proof fn law_completion_queue(m: NvmeModel, p: Permit, comp: Completion)
    requires
        m.ctrl.wf(),
    ensures
        ({
            let n = req_completed(m, p, comp);
            match m.ctrl.cq(p.cq_id) {
                Some(q) if q.serial == p.cq_serial => {
                    &&& n.ctrl.sqs == m.ctrl.sqs
                    &&& forall|i: int|
                        0 <= i < 16 && i != p.cq_id ==> #[trigger] n.ctrl.cqs[i] == m.ctrl.cqs[i]
                    &&& match m.ctrl.sq(p.sq_id) {
                        Some(s) if s.serial == p.sq_serial => n.ctrl.cqs[p.cq_id as int] == Some(
                            p.spec_complete(comp, q, Some(s), m.acc).0,
                        ) && n.acc == p.spec_complete(comp, q, Some(s), m.acc).1,
                        _ => {
                            &&& n.ctrl.cqs[p.cq_id as int] matches Some(t) && t.state.avail == (
                            q.state.avail + 1) as u16 && t.state.queue == q.state.queue
                            &&& n.acc == m.acc
                            &&& n.events == m.events
                        },
                    }
                },
                _ => n == m,
            }
        }),
{
}

} // verus!
