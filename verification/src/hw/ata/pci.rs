//! An ATA controller as a PCI device.
use crate::block::Request;
use crate::common::RWOp;
use crate::hw::ata::controller::{
    channel_accessed, port_channel, AtaController, ChannelSelect, ChannelView, ControllerView,
};
use crate::hw::ata::device::AtaView;
use crate::hw::ibmpc::{
    LEN_ATA_CMD, LEN_ATA_CTRL, PORT_ATA0_CMD, PORT_ATA0_CTRL, PORT_ATA1_CMD, PORT_ATA1_CTRL,
};
use crate::hw::pci::device::DeviceState;
use crate::intr_pins::PinEvent;
use vstd::prelude::*;

verus! {

/// The ranges of ports of a controller, each with its length.
pub open spec fn ata_ports() -> Seq<(u16, u16)> {
    seq![
        (PORT_ATA0_CMD, LEN_ATA_CMD),
        (PORT_ATA1_CMD, LEN_ATA_CMD),
        (PORT_ATA0_CTRL, LEN_ATA_CTRL),
        (PORT_ATA1_CTRL, LEN_ATA_CTRL),
    ]
}

/// The ranges of ports of a controller, each with its length.
pub(crate) fn list_ata_ports() -> (r: Vec<(u16, u16)>)
    ensures
        r@ == ata_ports(),
{
    let mut r: Vec<(u16, u16)> = Vec::new();
    r.push((PORT_ATA0_CMD, LEN_ATA_CMD));
    r.push((PORT_ATA1_CMD, LEN_ATA_CMD));
    r.push((PORT_ATA0_CTRL, LEN_ATA_CTRL));
    r.push((PORT_ATA1_CTRL, LEN_ATA_CTRL));
    assert(r@ =~= ata_ports());
    r
}

/// The ranges of ports of a controller do not overlap.
pub proof fn law_ata_ports_apart(i: int, j: int)
    requires
        0 <= i < j < 4,
    ensures
        ({
            let (a, b) = (ata_ports()[i], ata_ports()[j]);
            a.0 + a.1 <= b.0 || b.0 + b.1 <= a.0
        }),
{
}

/// A drive as the block layer sees it. It has no requests: its data moves
/// through the ports.
#[derive(Clone, Copy, Debug, PartialEq, Eq, Structural)]
pub struct AtaBlockDevice {
    pub channel_id: ChannelSelect,
    pub device_id: u8,
}

impl AtaBlockDevice {
    /// The drive at a place of a controller.
    pub fn new(channel_id: ChannelSelect, device_id: u8) -> (r: Self)
        ensures
            r == (AtaBlockDevice { channel_id, device_id }),
    {
        AtaBlockDevice { channel_id, device_id }
    }

    /// The next request.
    pub fn next(&self) -> (r: Option<Request>)
        ensures
            r is None,
    {
        None
    }
}

/// An ATA controller as a PCI device.
#[derive(Debug)]
pub struct PciAtaController {
    pub pci_state: DeviceState,
    pub ata_state: AtaController,
    /// The four drives, channel by channel.
    pub block_devices: [AtaBlockDevice; 4],
}

impl PciAtaController {
    /// A controller without drives.
    pub fn new(pci_state: DeviceState) -> (r: Self)
        ensures
            r.pci_state == pci_state,
            r.ata_state@.wf(),
            !r.ata_state@.paused,
            forall|id: ChannelSelect|
                #![trigger r.ata_state@.channel(id)]
                r.ata_state@.channel(id) == (ChannelView {
                    devices: seq![None::<AtaView>, None::<AtaView>],
                    selected: 0,
                    pin: None,
                }),
            forall|i: int|
                0 <= i < 4 ==> (#[trigger] r.block_devices@[i]) == (AtaBlockDevice {
                    channel_id: if i < 2 {
                        ChannelSelect::Primary
                    } else {
                        ChannelSelect::Secondary
                    },
                    device_id: (i % 2) as u8,
                }),
    {
        PciAtaController {
            pci_state,
            ata_state: AtaController::create(),
            block_devices: [
                AtaBlockDevice::new(ChannelSelect::Primary, 0),
                AtaBlockDevice::new(ChannelSelect::Primary, 1),
                AtaBlockDevice::new(ChannelSelect::Secondary, 0),
                AtaBlockDevice::new(ChannelSelect::Secondary, 1),
            ],
        }
    }

    /// The ranges of ports to be handed to [`Self::pio_rw`], each with its
    /// length.
    pub fn attach_pio() -> (r: Vec<(u16, u16)>)
        ensures
            r@ == ata_ports(),
    {
        list_ata_ports()
    }

    /// Gives the channels their interrupt lines.
    pub fn attach_irq(&mut self, ata0_pin: u32, ata1_pin: u32)
        requires
            old(self).ata_state@.wf(),
        ensures
            final(self).ata_state@.wf(),
            final(self).pci_state == old(self).pci_state,
            final(self).block_devices == old(self).block_devices,
            final(self).ata_state@ == (ControllerView {
                primary: ChannelView { pin: Some(ata0_pin), ..old(self).ata_state@.primary },
                secondary: ChannelView { pin: Some(ata1_pin), ..old(self).ata_state@.secondary },
                ..old(self).ata_state@
            }),
    {
        self.ata_state.attach_irq(ata0_pin, ata1_pin);
    }

    /// Services an access to the ports of the controller.
    pub fn pio_rw(&mut self, port: u16, rwo: RWOp, events: &mut Vec<PinEvent>) -> (r: RWOp)
        requires
            old(self).ata_state@.wf(),
            old(self).ata_state@.takes(port, rwo),
        ensures
            final(self).ata_state@.wf(),
            final(self).pci_state == old(self).pci_state,
            final(self).block_devices == old(self).block_devices,
            r.spec_offset() == rwo.spec_offset(),
            r is Read <==> rwo is Read,
            ({
                let id = port_channel(port);
                let (d, data) = channel_accessed(old(self).ata_state@.channel(id), port, rwo);
                &&& r.bytes() == data
                &&& final(self).ata_state@ == old(self).ata_state@.with_channel(id, d)
                &&& final(events)@ == old(events)@ + d.line_events()
            }),
    {
        self.ata_state.pio_rw(port, rwo, events)
    }
}

} // verus!
