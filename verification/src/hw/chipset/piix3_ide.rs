//! The IDE controller of the PIIX3 chip.
use crate::common::RWOp;
use crate::hw::ata::controller::{
    channel_accessed, port_channel, AtaController, ChannelView, ControllerView,
};
use crate::hw::ata::pci::{ata_ports, list_ata_ports};
use crate::hw::chipset::Chipset;
use crate::hw::ibmpc::{IRQ_ATA0, IRQ_ATA1, LEN_ATA_CMD, LEN_ATA_CTRL};
use crate::hw::ids::{PIIX3_IDE_DEV_ID, PIIX3_IDE_SUB_DEV_ID, VENDOR_INTEL, VENDOR_OXIDE};
use crate::hw::pci::bar::EntryKind;
use crate::hw::pci::bits::{CLASS_STORAGE, PROGIF_IDE_LEGACY_MODE, SUBCLASS_STORAGE_IDE};
use crate::hw::pci::device::{
    dev_reset, is_pow2, plain_device, std_region, Builder, DevCtx, DevView, DeviceState, Ident,
};
use crate::hw::pci::BarN;
use crate::intr_pins::PinEvent;
use vstd::arithmetic::power2::{lemma2_to64, pow2};
use vstd::prelude::*;

verus! {

/// The IDE controller of the PIIX3 chip.
#[derive(Debug)]
pub struct Piix3IdeCtrl {
    pub ata_state: AtaController,
    pub pci_state: DeviceState,
}

/// The controller, as a device, when the power comes on: each channel has a BAR for
/// its command block and one for its control block.
pub open spec fn ide_device() -> DevView {
    plain_device(
        Ident {
            vendor_id: VENDOR_INTEL,
            device_id: PIIX3_IDE_DEV_ID,
            class: CLASS_STORAGE,
            subclass: SUBCLASS_STORAGE_IDE,
            prog_if: PROGIF_IDE_LEGACY_MODE,
            revision_id: 0,
            sub_vendor_id: VENDOR_OXIDE,
            sub_device_id: PIIX3_IDE_SUB_DEV_ID,
        },
        false,
        seq![std_region()],
        seq![
            EntryKind::Pio(16),
            EntryKind::Pio(4),
            EntryKind::Pio(16),
            EntryKind::Pio(4),
            EntryKind::Empty,
            EntryKind::Empty,
        ],
    )
}

impl Piix3IdeCtrl {
    /// A controller of drives, as a part of the chip.
    pub fn create(ata_state: AtaController) -> (r: Self)
        ensures
            r.ata_state == ata_state,
            r.pci_state@.wf(),
            r.pci_state@ == ide_device(),
    {
        let builder: Builder = Builder::new(
            Ident {
                vendor_id: VENDOR_INTEL,
                device_id: PIIX3_IDE_DEV_ID,
                class: CLASS_STORAGE,
                subclass: SUBCLASS_STORAGE_IDE,
                prog_if: PROGIF_IDE_LEGACY_MODE,
                revision_id: 0,
                sub_vendor_id: VENDOR_OXIDE,
                sub_device_id: PIIX3_IDE_SUB_DEV_ID,
            },
        );
        proof {
            lemma2_to64();
            assert(16 == pow2(4));
            assert(4 == pow2(2));
            assert(is_pow2(16));
            assert(is_pow2(4));
        }
        let pci_state: DeviceState = builder.add_bar_io(BarN::BAR0, LEN_ATA_CMD * 2).add_bar_io(
            BarN::BAR1,
            LEN_ATA_CTRL * 2,
        ).add_bar_io(BarN::BAR2, LEN_ATA_CMD * 2).add_bar_io(
            BarN::BAR3,
            LEN_ATA_CTRL * 2,
        ).finish();
        let r: Piix3IdeCtrl = Piix3IdeCtrl { ata_state, pci_state };
        assert(r.pci_state@ =~= ide_device());
        r
    }

    /// The ranges of ports to be handed to [`Self::pio_rw`], each with its
    /// length.
    pub fn attach_pio(&self) -> (r: Vec<(u16, u16)>)
        ensures
            r@ == ata_ports(),
    {
        list_ata_ports()
    }

    /// Gives the channels their interrupt lines, if the chipset has them.
    pub fn attach_irq<C: Chipset>(&mut self, chipset: &C)
        requires
            old(self).ata_state@.wf(),
            chipset.irq_line(IRQ_ATA0) is Some,
            chipset.irq_line(IRQ_ATA1) is Some,
        ensures
            final(self).ata_state@.wf(),
            final(self).pci_state == old(self).pci_state,
            final(self).ata_state@ == (ControllerView {
                primary: ChannelView {
                    pin: chipset.irq_line(IRQ_ATA0),
                    ..old(self).ata_state@.primary
                },
                secondary: ChannelView {
                    pin: chipset.irq_line(IRQ_ATA1),
                    ..old(self).ata_state@.secondary
                },
                ..old(self).ata_state@
            }),
    {
        match (chipset.irq_pin(IRQ_ATA0), chipset.irq_pin(IRQ_ATA1)) {
            (Some(ata0), Some(ata1)) => {
                self.ata_state.attach_irq(ata0, ata1);
            },
            _ => {},
        }
    }

    /// Services an access to the ports of the controller.
    pub fn pio_rw(&mut self, port: u16, rwo: RWOp, events: &mut Vec<PinEvent>) -> (r: RWOp)
        requires
            old(self).ata_state@.wf(),
            old(self).ata_state@.takes(port, rwo),
        ensures
            final(self).ata_state@.wf(),
            final(self).pci_state == old(self).pci_state,
            r.spec_offset() == rwo.spec_offset(),
            r is Read <==> rwo is Read,
            ({
                let id = port_channel(port);
                let (d, data) = channel_accessed(old(self).ata_state@.channel(id), port, rwo);
                &&& r.bytes() == data
                &&& final(self).ata_state@ == old(self).ata_state@.with_channel(id, d)
                &&& final(events)@ == old(events)@ + d.line_events()
            }),
    {
        self.ata_state.pio_rw(port, rwo, events)
    }

    /// Resets the controller as a PCI device.
    pub fn reset(&mut self, ctx: &mut DevCtx)
        requires
            old(self).pci_state@.wf(),
        ensures
            final(self).pci_state@.wf(),
            final(self).ata_state == old(self).ata_state,
            final(self).pci_state.in_ctx(final(ctx)) == dev_reset(
                old(self).pci_state.in_ctx(old(ctx)),
            ),
    {
        self.pci_state.reset(ctx);
    }
}

} // verus!
