//! What the state of devices is saved as when it is moved to another host, and
//! which saved states are refused there.
use crate::common::GuestAddr;
use crate::hw::chipset::pm::{regs_imported, saved_regs, PMRegs, Piix3PmV1};
use crate::hw::nvme::ctrl::{CtrlView, NvmeCtrlV1};
use crate::hw::nvme::migrate::{exported_cqs, exported_sqs};
use crate::hw::nvme::queue::{CompQueueView, NvmeCompQueueV1, NvmeSubQueueV1, SubQueue};
use crate::hw::pci::bar::{bars_imported, entry_export, BarEntryV1, BarKindV1, Entry, EntryKind};
use crate::hw::pci::device::{dev_imported, msix_imported, DevModel, PciStateV1};
use crate::hw::pci::msix::{MsixStateV1, MsixView};
use crate::hw::ps2::ctrl::{PS2CtrlV1, PS2ScanCodeSet, PS2View};
use crate::hw::ps2::laws::{law_configuration_bits, law_mouse_status_bits, law_output_port_bits};
use crate::migrate::MigrateStateError;
use vstd::prelude::*;

verus! {

// ---------------------------------------------------------------------------
// PCI
// ---------------------------------------------------------------------------

/// A BAR is saved with its kind, its size and its address.
pub proof fn law_bar_saved(e: Entry)
    ensures
        entry_export(e) == match e.kind {
            EntryKind::Pio(size) => (BarEntryV1 {
                kind: BarKindV1::Pio,
                size: size as u64,
                value: e.value,
            }),
            EntryKind::Mmio(size) => (BarEntryV1 {
                kind: BarKindV1::Mmio,
                size: size as u64,
                value: e.value,
            }),
            EntryKind::Mmio64(size) => (BarEntryV1 {
                kind: BarKindV1::Mmio64,
                size,
                value: e.value,
            }),
            _ => (BarEntryV1 { kind: BarKindV1::Empty, size: 0, value: 0 }),
        },
{
}

/// A command register with other bits than 0, 1, 2 and 10 is refused, and
/// nothing is taken over.
pub proof fn law_saved_command(m: DevModel, s: PciStateV1)
    ensures
        ({
            let c = s.reg_command;
            let known = c % 8 + 0x400 * ((c / 0x400) % 2) == c;
            &&& !known ==> dev_imported(m, s) == (m, Some(MigrateStateError::PciCommand(c)))
            &&& known ==> dev_imported(m, s).0.dev.reg_command.spec_bits() == c
                && dev_imported(m, s).0.dev.reg_intr_line == s.reg_intr_line
        }),
{
}

/// A first BAR whose size has too many bits for its kind is refused, and so is
/// one of 64 bits that is not followed by an empty one.
pub proof fn law_saved_bars(s: Seq<Entry>, saved: Seq<BarEntryV1>)
    requires
        saved.len() == 6,
    ensures
        ({
            let e = saved[0];
            let r = bars_imported(s, saved, 0).1;
            &&& e.kind is Pio && e.size >= 0x1_0000 ==> r == Some(
                MigrateStateError::PioBarSize(e.size),
            )
            &&& e.kind is Mmio && e.size >= 0x1_0000_0000 ==> r == Some(
                MigrateStateError::MmioBarSize(e.size),
            )
            &&& e.kind is Mmio64 && !(saved[1].kind is Empty) ==> r == Some(
                MigrateStateError::Mmio64BarHighNotEmpty,
            )
        }),
{
}

/// Saved vectors are taken over by a device that has as many, and refused by
/// one that has other ones, or none, or that misses them.
pub proof fn law_saved_vectors(c: MsixView, s: MsixStateV1)
    ensures
        c.count != s.count ==> msix_imported(Some(c), Some(s)) == (
            Some(c),
            Some(MigrateStateError::MsixCount(c.count, s.count)),
        ),
        c.count == s.count && s.entries@.len() != s.count ==> msix_imported(Some(c), Some(s)).1
            == Some(MigrateStateError::MsixEntryCount(c.count as u64, s.entries@.len() as u64)),
        c.count == s.count && s.entries@.len() == s.count ==> {
            let (n, e) = msix_imported(Some(c), Some(s));
            &&& e is None
            &&& n is Some
            &&& n->0.enabled == s.is_enabled
            &&& n->0.func_mask == s.is_func_masked
            &&& n->0.count == c.count
            &&& n->0.bar == c.bar
            &&& c.entries.len() == c.count ==> forall|i: int|
                0 <= i < c.count ==> {
                    let (a, b) = (#[trigger] n->0.entries[i], s.entries@[i]);
                    &&& a.addr == b.addr
                    &&& a.data == b.data
                    &&& a.mask_vec == b.is_vec_masked
                    &&& a.pending == b.is_pending
                    &&& a.mask_func == s.is_func_masked
                    &&& a.enabled == s.is_enabled
                }
        },
        msix_imported(None, Some(s)).1 == Some(MigrateStateError::MsixUnexpected),
        msix_imported(Some(c), None).1 == Some(MigrateStateError::MsixMissing),
        msix_imported(None, None) == (None::<MsixView>, None::<MigrateStateError>),
{
}

// ---------------------------------------------------------------------------
// NVMe
// ---------------------------------------------------------------------------

/// What is saved of a controller: its registers, where its doorbells in memory
/// are, and its queues in the order of their identifiers.
pub proof fn law_controller_saved(v: CtrlView, s: NvmeCtrlV1)
    requires
        v.saved_as(s),
    ensures
        s.cap == v.ctrl.cap.0,
        s.cc == v.ctrl.cc.0,
        s.csts == v.ctrl.csts.0,
        s.aqa == v.ctrl.aqa.0,
        s.acq_base == v.ctrl.admin_cq_base,
        s.asq_base == v.ctrl.admin_sq_base,
        v.doorbell_buf is None ==> s.dbbuf_shadow == 0 && s.dbbuf_evtidx == 0,
        v.doorbell_buf is Some ==> GuestAddr(s.dbbuf_shadow) == v.doorbell_buf->0.shadow
            && GuestAddr(s.dbbuf_evtidx) == v.doorbell_buf->0.eventidx,
        s.cqs@ == exported_cqs(v.cqs, 16),
        s.sqs@ == exported_sqs(v.sqs, 16),
{
}

/// What is saved of a completion queue.
pub proof fn law_comp_queue_saved(cqs: Seq<Option<CompQueueView>>, n: int, i: int)
    requires
        0 <= i < n <= cqs.len(),
        cqs[i] is Some,
    ensures
        ({
            let q = cqs[i]->0;
            exported_cqs(cqs, n).contains(
                NvmeCompQueueV1 {
                    id: q.id,
                    size: q.state.queue.size,
                    head: q.state.queue.head,
                    tail: q.state.queue.tail,
                    avail: q.state.avail,
                    phase: q.state.phase,
                    base: q.base.0,
                    iv: q.iv,
                },
            )
        }),
    decreases n,
{
    let q = cqs[i]->0;
    let all = exported_cqs(cqs, n);
    if i == n - 1 {
        assert(all.last() == q.spec_export());
    } else {
        law_comp_queue_saved(cqs, n - 1, i);
        let rest = exported_cqs(cqs, n - 1);
        let k = choose|k: int| 0 <= k < rest.len() && rest[k] == q.spec_export();
        assert(all[k] == rest[k]);
    }
}

/// What is saved of a submission queue.
pub proof fn law_sub_queue_saved(sqs: Seq<Option<SubQueue>>, n: int, i: int)
    requires
        0 <= i < n <= sqs.len(),
        sqs[i] is Some,
    ensures
        ({
            let q = sqs[i]->0;
            exported_sqs(sqs, n).contains(
                NvmeSubQueueV1 {
                    id: q.id,
                    size: q.state.size,
                    head: q.state.head,
                    tail: q.state.tail,
                    base: q.base.0,
                    cq_id: q.cq_id,
                },
            )
        }),
    decreases n,
{
    let q = sqs[i]->0;
    let all = exported_sqs(sqs, n);
    if i == n - 1 {
        assert(all.last() == q.spec_export());
    } else {
        law_sub_queue_saved(sqs, n - 1, i);
        let rest = exported_sqs(sqs, n - 1);
        let k = choose|k: int| 0 <= k < rest.len() && rest[k] == q.spec_export();
        assert(all[k] == rest[k]);
    }
}

// ---------------------------------------------------------------------------
// PS/2 and power management
// ---------------------------------------------------------------------------

/// What is saved of a PS/2 controller is each part of it under its name. The
/// set of scan codes is saved as its number.
pub proof fn law_ps2_saved(v: PS2View, s: PS2CtrlV1)
    requires
        v.saved_as(s),
    ensures
        s.ctrl.response == v.resp,
        s.ctrl.cmd_prefix == v.cmd_prefix,
        s.ctrl.ram@ == v.ram,
        s.kbd.buf@ == v.pri.buf,
        s.kbd.current_cmd == v.pri.cur_cmd,
        s.kbd.enabled == v.pri.enabled,
        s.kbd.led_status == v.pri.led_status,
        s.kbd.typematic == v.pri.typematic,
        s.kbd.scan_code_set == match v.pri.scan_code_set {
            PS2ScanCodeSet::Set1 => 1u8,
            PS2ScanCodeSet::Set2 => 2u8,
        },
        s.mouse.buf@ == v.aux.buf,
        s.mouse.current_cmd == v.aux.cur_cmd,
        s.mouse.resolution == v.aux.resolution,
        s.mouse.sample_rate == v.aux.sample_rate,
{
}

/// A saved PS/2 controller is refused exactly if a byte of it has a bit that
/// does not exist, or if there is no such set of scan codes; what is wrong first
/// is told. The output port is told by the configuration byte.
pub proof fn law_ps2_refused(v: PS2View, s: PS2CtrlV1)
    ensures
        ({
            let (cfg, port) = (s.ctrl.ctrl_cfg, s.ctrl.ctrl_out_port);
            let (set, mouse) = (s.kbd.scan_code_set, s.mouse.status);
            v.imported(s).1 == if cfg >= 0x80 || (cfg / 8) % 2 == 1 {
                Some(MigrateStateError::Ps2CtrlCfg(cfg))
            } else if port % 2 == 1 {
                Some(MigrateStateError::Ps2CtrlOutPort(cfg))
            } else if set != 1 && set != 2 {
                Some(MigrateStateError::Ps2ScanCodeSet(set))
            } else if mouse >= 0x80 || (mouse / 8) % 2 == 1 {
                Some(MigrateStateError::Ps2MouseStatus(mouse))
            } else {
                None
            }
        }),
{
    law_configuration_bits(s.ctrl.ctrl_cfg);
    law_output_port_bits(s.ctrl.ctrl_out_port);
    law_mouse_status_bits(s.mouse.status);
}

/// What is saved of the power management, and which saved states of it are
/// refused: the status and what is enabled have bit 8 only, the control bits 0
/// and 10 to 13.
pub proof fn law_pm_saved(r: PMRegs, s: Piix3PmV1)
    ensures
        ({
            let out = saved_regs(r);
            &&& out.pm_base == r.pm_base
            &&& out.pm_status == if r.pwrbtn_sts {
                0x100u16
            } else {
                0
            }
            &&& out.pm_ena == if r.pwrbtn_en {
                0x100u16
            } else {
                0
            }
            &&& r.pm_ctrl.wf() ==> out.pm_ctrl == (if r.pm_ctrl.sci_en {
                1int
            } else {
                0
            }) + 0x400 * r.pm_ctrl.sus_typ + (if r.pm_ctrl.sus_en {
                0x2000int
            } else {
                0
            })
        }),
        ({
            let (n, e) = regs_imported(r, s);
            let known = s.pm_ctrl % 2 + 0x400 * ((s.pm_ctrl / 0x400) % 16) == s.pm_ctrl;
            &&& e == if s.pm_status != 0 && s.pm_status != 0x100 {
                Some(MigrateStateError::Piix3PmStatus(s.pm_status))
            } else if s.pm_ena != 0 && s.pm_ena != 0x100 {
                Some(MigrateStateError::Piix3PmEna(s.pm_ena))
            } else if !known {
                Some(MigrateStateError::Piix3PmCtrl(s.pm_ctrl))
            } else {
                None
            }
            &&& e is None ==> saved_regs(n) == s
        }),
{
    let c = s.pm_ctrl;
    assert((c / 0x400) % 16 == (c / 0x400) % 8 + 8 * ((c / 0x2000) % 2)) by {
        let x = c / 0x400;
        assert(c / 0x2000 == x / 8);
        assert(x % 16 == x % 8 + 8 * ((x / 8) % 2));
    }
}

} // verus!
