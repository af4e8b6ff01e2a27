//! The controller of ATA disk drives: two channels with two drives each.
use crate::common::{
    byte_vec, get_le16, get_le32, le16, le16_vec, le32, le32_vec, RWOp, ReadOp,
};
use crate::hw::ata::bits::{
    flag, law_command_codes, Commands, DeviceControlRegister, DeviceRegister, Registers,
};
use crate::hw::ata::device::{readable, writable, AtaDevice, AtaView};
use crate::hw::ibmpc::{PORT_ATA0_CMD, PORT_ATA0_CTRL, PORT_ATA1_CMD, PORT_ATA1_CTRL};
use crate::intr_pins::PinEvent;
use vstd::prelude::*;

verus! {

/// What a register reads as where there is no drive.
pub const NO_DEVICE_VALUE: u8 = 0x7f;

/// A channel of a controller.
#[derive(Clone, Copy, Debug, PartialEq, Eq, Structural)]
pub enum ChannelSelect {
    Primary,
    Secondary,
}

/// What a channel holds.
#[verifier::ext_equal]
pub struct ChannelView {
    /// The two drives, if they are there.
    pub devices: Seq<Option<AtaView>>,
    pub selected: int,
    pub pin: Option<u32>,
}

/// A channel with up to two drives.
#[derive(Debug)]
pub struct Channel {
    pub devices: Vec<Option<AtaDevice>>,
    /// The drive that is addressed.
    pub device_selected: usize,
    /// The interrupt line.
    pub ata_pin: Option<u32>,
}

/// What a place for a drive holds.
pub open spec fn place_view(d: Option<AtaDevice>) -> Option<AtaView> {
    match d {
        Some(d) => Some(d@),
        None => None,
    }
}

impl View for Channel {
    type V = ChannelView;

    open spec fn view(&self) -> ChannelView {
        ChannelView {
            devices: self.devices@.map_values(|d: Option<AtaDevice>| place_view(d)),
            selected: self.device_selected as int,
            pin: self.ata_pin,
        }
    }
}

/// What the self-test does to a place for a drive.
pub open spec fn place_diagnosed(d: Option<AtaView>) -> Option<AtaView> {
    match d {
        Some(d) => Some(d.diagnosed()),
        None => None,
    }
}

/// What the reset line does to a place for a drive.
pub open spec fn place_reset(d: Option<AtaView>, on: bool) -> Option<AtaView> {
    match d {
        Some(d) => Some(d.reset_line(on)),
        None => None,
    }
}

/// What writing a register does to a place for a drive.
pub open spec fn place_written(d: Option<AtaView>, reg: Registers, value: u8) -> Option<AtaView> {
    match d {
        Some(d) => Some(d.register_written(reg, value)),
        None => None,
    }
}

impl ChannelView {
    /// The invariant of channels.
    pub open spec fn wf(self) -> bool {
        &&& self.devices.len() == 2
        &&& 0 <= self.selected < 2
        &&& forall|i: int|
            0 <= i < 2 ==> (match #[trigger] self.devices[i] {
                Some(d) => d.wf(),
                None => true,
            })
    }

    /// The drive that is addressed, if it is there.
    pub open spec fn device(self) -> Option<AtaView> {
        self.devices[self.selected]
    }

    /// What becomes of the interrupt line: it follows the drive that is
    /// addressed.
    pub open spec fn line_events(self) -> Seq<PinEvent> {
        match self.pin {
            Some(line) => {
                let pending = match self.device() {
                    Some(d) => d.interrupting(),
                    None => false,
                };
                seq![
                    if pending {
                        PinEvent::Assert(line)
                    } else {
                        PinEvent::Deassert(line)
                    },
                ]
            },
            None => Seq::empty(),
        }
    }

    /// The channel with another drive addressed.
    pub open spec fn addressing(self, reg: Registers, value: u8) -> ChannelView {
        if reg is Device {
            ChannelView {
                selected: if flag(value, 0x10) {
                    1
                } else {
                    0
                },
                ..self
            }
        } else {
            self
        }
    }

    /// The channel after what all of its drives take part in: the self-test,
    /// after which the first drive is addressed, and the reset line.
    pub open spec fn broadcast(self, reg: Registers, value: u8) -> ChannelView {
        if reg is Command && value == Commands::ExecuteDeviceDiagnostics.spec_code() {
            ChannelView {
                devices: self.devices.map_values(|d: Option<AtaView>| place_diagnosed(d)),
                selected: 0,
                ..self
            }
        } else if reg is DeviceControl {
            ChannelView {
                devices: self.devices.map_values(
                    |d: Option<AtaView>| place_reset(d, flag(value, 0x04)),
                ),
                ..self
            }
        } else {
            self
        }
    }

    /// The channel after a register was written. The drive that was addressed
    /// takes the value.
    pub open spec fn register_written(self, reg: Registers, value: u8) -> ChannelView {
        let c1 = self.addressing(reg, value);
        let c2 = c1.broadcast(reg, value);
        ChannelView {
            devices: c2.devices.update(
                c1.selected,
                place_written(c2.devices[c1.selected], reg, value),
            ),
            ..c2
        }
    }

    /// The channel after a register was read.
    pub open spec fn register_got(self, reg: Registers) -> ChannelView {
        match self.device() {
            Some(d) => ChannelView {
                devices: self.devices.update(self.selected, Some(d.register_got(reg))),
                ..self
            },
            None => self,
        }
    }

    /// What a register reads as.
    pub open spec fn register(self, reg: Registers) -> u8 {
        match self.device() {
            Some(d) => d.register(reg),
            None => NO_DEVICE_VALUE,
        }
    }

    /// The channel after a read of the data port, and the word that is read.
    pub open spec fn data_got(self) -> (ChannelView, u16) {
        match self.device() {
            Some(d) => (
                ChannelView {
                    devices: self.devices.update(self.selected, Some(d.data_got().0)),
                    ..self
                },
                d.data_got().1,
            ),
            None => (self, NO_DEVICE_VALUE as u16),
        }
    }

    /// The channel after a read of two words of the data port, and what is
    /// read.
    pub open spec fn data32_got(self) -> (ChannelView, u32) {
        match self.device() {
            Some(d) => {
                let (d1, low) = d.data_got();
                let (d2, high) = d1.data_got();
                (
                    ChannelView { devices: self.devices.update(self.selected, Some(d2)), ..self },
                    (low + 0x1_0000 * high) as u32,
                )
            },
            None => (self, NO_DEVICE_VALUE as u32),
        }
    }

    /// Whether the drive that is addressed can take a value for a register.
    pub open spec fn accepts(self, reg: Registers, value: u8) -> bool {
        reg is Command ==> match self.device() {
            Some(d) => d.accepts(value),
            None => true,
        }
    }
}

impl Channel {
    /// A channel without drives.
    pub fn new() -> (r: Channel)
        ensures
            r@.wf(),
            r@ == (ChannelView {
                devices: seq![None::<AtaView>, None::<AtaView>],
                selected: 0,
                pin: None,
            }),
    {
        let mut devices: Vec<Option<AtaDevice>> = Vec::new();
        devices.push(None);
        devices.push(None);
        let r: Channel = Channel { devices, device_selected: 0, ata_pin: None };
        assert(r@.devices =~= seq![None::<AtaView>, None::<AtaView>]);
        r
    }

    /// Puts a drive in its place.
    pub fn attach_device(&mut self, device_id: usize, device: AtaDevice)
        requires
            old(self)@.wf(),
            device@.wf(),
            device_id < 2,
        ensures
            final(self)@.wf(),
            final(self)@ == (ChannelView {
                devices: old(self)@.devices.update(
                    device_id as int,
                    Some(AtaView { id: device_id, ..device@ }),
                ),
                ..old(self)@
            }),
    {
        let ghost c0 = self@;
        let mut device: AtaDevice = device;
        device.id = device_id;
        self.devices.set(device_id, Some(device));
        assert(self@.devices =~= c0.devices.update(device_id as int, Some(device@)));
    }

    /// Whether the drive that is addressed can take a code as a command.
    pub fn can_take(&self, code: u8) -> (r: bool)
        requires
            self@.wf(),
        ensures
            r == self@.accepts(Registers::Command, code),
    {
        let id: usize = self.device_selected;
        assert(self@.devices[id as int] == place_view(self.devices@[id as int]));
        match &self.devices[id] {
            Some(device) => device.can_take(code),
            None => true,
        }
    }

    /// Reads a register of the drive that is addressed.
    pub fn read_register(&mut self, reg: Registers) -> (r: u8)
        requires
            old(self)@.wf(),
            old(self)@.device() is Some ==> readable(reg),
        ensures
            final(self)@.wf(),
            r == old(self)@.register(reg),
            final(self)@ == old(self)@.register_got(reg),
    {
        let ghost c0 = self@;
        let id: usize = self.device_selected;
        assert(c0.devices[id as int] == place_view(self.devices@[id as int]));
        let r: u8 = match &mut self.devices[id] {
            Some(device) => device.read_register(reg),
            None => NO_DEVICE_VALUE,
        };
        assert(self@.devices =~= c0.register_got(reg).devices);
        r
    }

    /// Reads a word from the data port of the drive that is addressed.
    pub fn read_data16(&mut self) -> (r: u16)
        requires
            old(self)@.wf(),
        ensures
            final(self)@.wf(),
            (final(self)@, r) == old(self)@.data_got(),
    {
        let ghost c0 = self@;
        let id: usize = self.device_selected;
        assert(c0.devices[id as int] == place_view(self.devices@[id as int]));
        let r: u16 = match &mut self.devices[id] {
            Some(device) => device.read_data(),
            None => NO_DEVICE_VALUE as u16,
        };
        assert(self@.devices =~= c0.data_got().0.devices);
        r
    }

    /// Reads two words from the data port of the drive that is addressed.
    pub fn read_data32(&mut self) -> (r: u32)
        requires
            old(self)@.wf(),
        ensures
            final(self)@.wf(),
            (final(self)@, r) == old(self)@.data32_got(),
    {
        let ghost c0 = self@;
        let id: usize = self.device_selected;
        assert(c0.devices[id as int] == place_view(self.devices@[id as int]));
        let r: u32 = match &mut self.devices[id] {
            Some(device) => device.read_data32(),
            None => NO_DEVICE_VALUE as u32,
        };
        assert(self@.devices =~= c0.data32_got().0.devices);
        r
    }

    /// Writes a word to the data port of the drive that is addressed.
    pub fn write_data16(&mut self, data: u16)
        requires
            old(self)@.wf(),
        ensures
            final(self)@.wf(),
            final(self)@ == old(self)@,
    {
        let ghost c0 = self@;
        let id: usize = self.device_selected;
        assert(c0.devices[id as int] == place_view(self.devices@[id as int]));
        match &mut self.devices[id] {
            Some(device) => {
                device.write_data(data);
            },
            None => {},
        }
        assert(self@.devices =~= c0.devices);
    }

    /// Lets both drives run their self-test.
    fn diagnose_all(&mut self)
        requires
            old(self)@.wf(),
        ensures
            final(self)@.wf(),
            final(self)@ == (ChannelView {
                devices: old(self)@.devices.map_values(|d: Option<AtaView>| place_diagnosed(d)),
                ..old(self)@
            }),
    {
        let ghost c0 = self@;
        let mut i: usize = 0;
        while i < 2
            invariant
                i <= 2,
                c0.wf(),
                self@.wf(),
                self@.selected == c0.selected,
                self@.pin == c0.pin,
                forall|j: int|
                    0 <= j < 2 ==> #[trigger] self@.devices[j] == if j < i {
                        place_diagnosed(c0.devices[j])
                    } else {
                        c0.devices[j]
                    },
            decreases 2 - i,
        {
            let ghost c1 = self@;
            assert(c1.devices[i as int] == place_view(self.devices@[i as int]));
            match &mut self.devices[i] {
                Some(device) => {
                    device.execute_device_diagnostics();
                },
                None => {},
            }
            assert(self@.devices =~= c1.devices.update(
                i as int,
                place_diagnosed(c0.devices[i as int]),
            ));
            i += 1;
        }
        assert(self@.devices =~= c0.devices.map_values(
            |d: Option<AtaView>| place_diagnosed(d),
        ));
    }

    /// Sets the reset line of both drives.
    fn reset_all(&mut self, on: bool)
        requires
            old(self)@.wf(),
        ensures
            final(self)@.wf(),
            final(self)@ == (ChannelView {
                devices: old(self)@.devices.map_values(|d: Option<AtaView>| place_reset(d, on)),
                ..old(self)@
            }),
    {
        let ghost c0 = self@;
        let mut i: usize = 0;
        while i < 2
            invariant
                i <= 2,
                c0.wf(),
                self@.wf(),
                self@.selected == c0.selected,
                self@.pin == c0.pin,
                forall|j: int|
                    0 <= j < 2 ==> #[trigger] self@.devices[j] == if j < i {
                        place_reset(c0.devices[j], on)
                    } else {
                        c0.devices[j]
                    },
            decreases 2 - i,
        {
            let ghost c1 = self@;
            assert(c1.devices[i as int] == place_view(self.devices@[i as int]));
            match &mut self.devices[i] {
                Some(device) => {
                    device.set_software_reset(on);
                },
                None => {},
            }
            assert(self@.devices =~= c1.devices.update(
                i as int,
                place_reset(c0.devices[i as int], on),
            ));
            i += 1;
        }
        assert(self@.devices =~= c0.devices.map_values(
            |d: Option<AtaView>| place_reset(d, on),
        ));
    }

    /// Writes a register. Drives share their channel, and each takes part in
    /// some of the writes, whichever of them is addressed.
    pub fn write_register(&mut self, reg: Registers, value: u8)
        requires
            old(self)@.wf(),
            old(self)@.device() is Some ==> writable(reg),
            old(self)@.accepts(reg, value),
        ensures
            final(self)@.wf(),
            final(self)@ == old(self)@.register_written(reg, value),
    {
        let ghost c0 = self@;
        // A write to the device register goes to the drive that it selects.
        if let Registers::Device = reg {
            self.device_selected = if DeviceRegister(value).device_select() {
                1
            } else {
                0
            };
        }
        let ghost c1 = self@;
        assert(c1.devices == c0.devices);
        let id: usize = self.device_selected;
        match reg {
            Registers::Command => {
                if value == Commands::ExecuteDeviceDiagnostics.code() {
                    self.diagnose_all();
                    self.device_selected = 0;
                }
            },
            Registers::DeviceControl => {
                self.reset_all(DeviceControlRegister(value).software_reset());
            },
            _ => {},
        }
        let ghost c2 = self@;
        assert(c2 =~= c1.broadcast(reg, value));
        assert(c2.devices[id as int] == place_view(self.devices@[id as int]));
        match &mut self.devices[id] {
            Some(device) => {
                device.write_register(reg, value);
            },
            None => {},
        }
        assert(self@.devices =~= c0.register_written(reg, value).devices);
    }

    /// Lets the interrupt line follow the drive that is addressed.
    pub fn update_interrupt(&self, events: &mut Vec<PinEvent>)
        requires
            self@.wf(),
        ensures
            final(events)@ == old(events)@ + self@.line_events(),
    {
        let id: usize = self.device_selected;
        assert(self@.devices[id as int] == place_view(self.devices@[id as int]));
        let pending: bool = match &self.devices[id] {
            Some(device) => device.interrupt_pending(),
            None => false,
        };
        if let Some(line) = self.ata_pin {
            events.push(
                if pending {
                    PinEvent::Assert(line)
                } else {
                    PinEvent::Deassert(line)
                },
            );
        }
        assert(events@ =~= old(events)@ + self@.line_events());
    }
}

/// The self-test reaches all drives of a channel, whichever is addressed, and
/// the first one is addressed after it.
pub proof fn law_diagnostics_reach_all(c: ChannelView, i: int)
    requires
        c.wf(),
        0 <= i < 2,
    ensures
        ({
            let d = c.register_written(
                Registers::Command,
                Commands::ExecuteDeviceDiagnostics.spec_code(),
            );
            &&& d.selected == 0
            &&& c.devices[i] is Some <==> d.devices[i] is Some
            &&& d.devices[i] is Some ==> d.devices[i]->0.registers.error.0 == 1
                && d.devices[i]->0.registers.status.0 == 0x50
        }),
{
    let code = Commands::ExecuteDeviceDiagnostics.spec_code();
    assert(Commands::ExecuteDeviceDiagnostics.spec_code() == code);
    assert forall|x: Commands| #[trigger] x.spec_code() == code implies x
        == Commands::ExecuteDeviceDiagnostics by {
        law_command_codes(x, Commands::ExecuteDeviceDiagnostics);
    }
}

/// A write to the device register is taken by the drive that it selects, and
/// no other drive is touched.
pub proof fn law_device_register_selects(c: ChannelView, value: u8)
    requires
        c.wf(),
    ensures
        ({
            let d = c.register_written(Registers::Device, value);
            let id: int = if flag(value, 0x10) {
                1
            } else {
                0
            };
            &&& d.selected == id
            &&& d.device() == place_written(c.devices[id], Registers::Device, value)
            &&& d.devices[1 - id] == c.devices[1 - id]
        }),
{
}

/// What a controller holds.
#[verifier::ext_equal]
pub struct ControllerView {
    pub primary: ChannelView,
    pub secondary: ChannelView,
    pub paused: bool,
}

/// A controller.
#[derive(Debug)]
pub struct AtaController {
    pub primary: Channel,
    pub secondary: Channel,
    pub paused: bool,
}

impl View for AtaController {
    type V = ControllerView;

    open spec fn view(&self) -> ControllerView {
        ControllerView {
            primary: self.primary@,
            secondary: self.secondary@,
            paused: self.paused,
        }
    }
}

impl ControllerView {
    /// The invariant of controllers.
    pub open spec fn wf(self) -> bool {
        &&& self.primary.wf()
        &&& self.secondary.wf()
    }

    /// A channel.
    pub open spec fn channel(self, id: ChannelSelect) -> ChannelView {
        match id {
            ChannelSelect::Primary => self.primary,
            ChannelSelect::Secondary => self.secondary,
        }
    }

    /// The controller with another state of a channel.
    pub open spec fn with_channel(self, id: ChannelSelect, c: ChannelView) -> ControllerView {
        match id {
            ChannelSelect::Primary => ControllerView { primary: c, ..self },
            ChannelSelect::Secondary => ControllerView { secondary: c, ..self },
        }
    }
}

/// What happens on a channel does not touch the other one.
pub proof fn law_channels_apart(v: ControllerView, id: ChannelSelect, other: ChannelSelect, c: ChannelView)
    ensures
        v.with_channel(id, c).channel(id) == c,
        other != id ==> v.with_channel(id, c).channel(other) == v.channel(other),
{
}

/// The registers of the command block, in their order, as they are read.
pub open spec fn command_read(offset: int) -> Registers {
    if offset == 1 {
        Registers::Error
    } else if offset == 2 {
        Registers::SectorCount
    } else if offset == 3 {
        Registers::LbaLow
    } else if offset == 4 {
        Registers::LbaMid
    } else if offset == 5 {
        Registers::LbaHigh
    } else if offset == 6 {
        Registers::Device
    } else {
        Registers::Status
    }
}

/// The registers of the command block, in their order, as they are written.
pub open spec fn command_written(offset: int) -> Registers {
    if offset == 1 {
        Registers::Features
    } else if offset == 7 {
        Registers::Command
    } else {
        command_read(offset)
    }
}

/// The channel whose ports stand at `port`.
pub open spec fn port_channel(port: u16) -> ChannelSelect {
    if port == PORT_ATA0_CMD || port == PORT_ATA0_CTRL {
        ChannelSelect::Primary
    } else {
        ChannelSelect::Secondary
    }
}

/// Whether the ports at `port` are those of a command block.
pub open spec fn is_command_port(port: u16) -> bool {
    port == PORT_ATA0_CMD || port == PORT_ATA1_CMD
}

/// Whether the ports at `port` are those of a controller, and the access is one
/// that they have.
pub open spec fn port_access_ok(port: u16, rwo: RWOp) -> bool {
    let (off, len) = (rwo.spec_offset(), rwo.bytes().len());
    if is_command_port(port) {
        (off == 0 && (len == 2 || len == 4)) || (1 <= off <= 7 && len == 1)
    } else {
        (port == PORT_ATA0_CTRL || port == PORT_ATA1_CTRL) && off == 0 && len == 1
    }
}

impl ControllerView {
    /// Whether the controller can take an access to its ports: they have it, and
    /// a drive that is sent a command by it can take that.
    pub open spec fn takes(self, port: u16, rwo: RWOp) -> bool {
        &&& port_access_ok(port, rwo)
        &&& rwo is Write && is_command_port(port) && rwo.spec_offset() == 7 ==> self.channel(
            port_channel(port),
        ).accepts(Registers::Command, rwo.bytes()[0])
    }
}

/// What an access to the ports of a channel leads to, and the bytes that are
/// read.
pub open spec fn channel_accessed(c: ChannelView, port: u16, rwo: RWOp) -> (ChannelView, Seq<u8>) {
    let (off, data) = (rwo.spec_offset() as int, rwo.bytes());
    if is_command_port(port) {
        if off == 0 {
            if rwo is Write {
                (c, data)
            } else if data.len() == 2 {
                (c.data_got().0, le16(c.data_got().1))
            } else {
                (c.data32_got().0, le32(c.data32_got().1))
            }
        } else if rwo is Read {
            (c.register_got(command_read(off)), seq![c.register(command_read(off))])
        } else {
            (c.register_written(command_written(off), data[0]), data)
        }
    } else if rwo is Read {
        (c.register_got(Registers::AltStatus), seq![c.register(Registers::AltStatus)])
    } else {
        (c.register_written(Registers::DeviceControl, data[0]), data)
    }
}

impl AtaController {
    /// A controller without drives.
    pub fn create() -> (r: Self)
        ensures
            r@.wf(),
            forall|id: ChannelSelect|
                #![trigger r@.channel(id)]
                r@.channel(id) == (ChannelView {
                    devices: seq![None::<AtaView>, None::<AtaView>],
                    selected: 0,
                    pin: None,
                }),
            !r@.paused,
    {
        AtaController { primary: Channel::new(), secondary: Channel::new(), paused: false }
    }

    /// Gives the channels their interrupt lines.
    pub fn attach_irq(&mut self, ata0_pin: u32, ata1_pin: u32)
        requires
            old(self)@.wf(),
        ensures
            final(self)@.wf(),
            final(self)@ == (ControllerView {
                primary: ChannelView { pin: Some(ata0_pin), ..old(self)@.primary },
                secondary: ChannelView { pin: Some(ata1_pin), ..old(self)@.secondary },
                ..old(self)@
            }),
    {
        self.primary.ata_pin = Some(ata0_pin);
        self.secondary.ata_pin = Some(ata1_pin);
    }

    /// Puts a drive in its place.
    pub fn attach_device(&mut self, channel_id: ChannelSelect, device_id: usize, device: AtaDevice)
        requires
            old(self)@.wf(),
            device@.wf(),
            device_id < 2,
        ensures
            final(self)@.wf(),
            final(self)@ == old(self)@.with_channel(
                channel_id,
                ChannelView {
                    devices: old(self)@.channel(channel_id).devices.update(
                        device_id as int,
                        Some(AtaView { id: device_id, ..device@ }),
                    ),
                    ..old(self)@.channel(channel_id)
                },
            ),
    {
        match channel_id {
            ChannelSelect::Primary => {
                self.primary.attach_device(device_id, device);
            },
            ChannelSelect::Secondary => {
                self.secondary.attach_device(device_id, device);
            },
        }
    }

    /// Reads a register of a drive.
    pub fn read_register(
        &mut self,
        channel_id: ChannelSelect,
        r: Registers,
        events: &mut Vec<PinEvent>,
    ) -> (val: u8)
        requires
            old(self)@.wf(),
            old(self)@.channel(channel_id).device() is Some ==> readable(r),
        ensures
            final(self)@.wf(),
            ({
                let c = old(self)@.channel(channel_id);
                let d = c.register_got(r);
                &&& val == c.register(r)
                &&& final(self)@ == old(self)@.with_channel(channel_id, d)
                &&& final(events)@ == old(events)@ + d.line_events()
            }),
    {
        match channel_id {
            ChannelSelect::Primary => {
                let val: u8 = self.primary.read_register(r);
                self.primary.update_interrupt(events);
                val
            },
            ChannelSelect::Secondary => {
                let val: u8 = self.secondary.read_register(r);
                self.secondary.update_interrupt(events);
                val
            },
        }
    }

    /// Reads a word from the data port of a drive.
    pub fn read_data16(&mut self, channel_id: ChannelSelect, events: &mut Vec<PinEvent>) -> (val:
        u16)
        requires
            old(self)@.wf(),
        ensures
            final(self)@.wf(),
            ({
                let (d, word) = old(self)@.channel(channel_id).data_got();
                &&& val == word
                &&& final(self)@ == old(self)@.with_channel(channel_id, d)
                &&& final(events)@ == old(events)@ + d.line_events()
            }),
    {
        match channel_id {
            ChannelSelect::Primary => {
                let val: u16 = self.primary.read_data16();
                self.primary.update_interrupt(events);
                val
            },
            ChannelSelect::Secondary => {
                let val: u16 = self.secondary.read_data16();
                self.secondary.update_interrupt(events);
                val
            },
        }
    }

    /// Reads two words from the data port of a drive.
    pub fn read_data32(&mut self, channel_id: ChannelSelect, events: &mut Vec<PinEvent>) -> (val:
        u32)
        requires
            old(self)@.wf(),
        ensures
            final(self)@.wf(),
            ({
                let (d, words) = old(self)@.channel(channel_id).data32_got();
                &&& val == words
                &&& final(self)@ == old(self)@.with_channel(channel_id, d)
                &&& final(events)@ == old(events)@ + d.line_events()
            }),
    {
        match channel_id {
            ChannelSelect::Primary => {
                let val: u32 = self.primary.read_data32();
                self.primary.update_interrupt(events);
                val
            },
            ChannelSelect::Secondary => {
                let val: u32 = self.secondary.read_data32();
                self.secondary.update_interrupt(events);
                val
            },
        }
    }

    /// Writes a register of the drives of a channel.
    pub fn write_register(
        &mut self,
        channel_id: ChannelSelect,
        r: Registers,
        value: u8,
        events: &mut Vec<PinEvent>,
    )
        requires
            old(self)@.wf(),
            old(self)@.channel(channel_id).device() is Some ==> writable(r),
            old(self)@.channel(channel_id).accepts(r, value),
        ensures
            final(self)@.wf(),
            ({
                let d = old(self)@.channel(channel_id).register_written(r, value);
                &&& final(self)@ == old(self)@.with_channel(channel_id, d)
                &&& final(events)@ == old(events)@ + d.line_events()
            }),
    {
        match channel_id {
            ChannelSelect::Primary => {
                self.primary.write_register(r, value);
                self.primary.update_interrupt(events);
            },
            ChannelSelect::Secondary => {
                self.secondary.write_register(r, value);
                self.secondary.update_interrupt(events);
            },
        }
    }

    /// Writes a word to the data port of a drive.
    pub fn write_data16(&mut self, channel_id: ChannelSelect, data: u16, events: &mut Vec<PinEvent>)
        requires
            old(self)@.wf(),
        ensures
            final(self)@.wf(),
            final(self)@ == old(self)@,
            final(events)@ == old(events)@ + old(self)@.channel(channel_id).line_events(),
    {
        match channel_id {
            ChannelSelect::Primary => {
                self.primary.write_data16(data);
                self.primary.update_interrupt(events);
            },
            ChannelSelect::Secondary => {
                self.secondary.write_data16(data);
                self.secondary.update_interrupt(events);
            },
        }
    }

    /// Writes two words to the data port of a drive, the lower one first.
    pub fn write_data32(&mut self, channel_id: ChannelSelect, data: u32, events: &mut Vec<PinEvent>)
        requires
            old(self)@.wf(),
        ensures
            final(self)@.wf(),
            final(self)@ == old(self)@,
            final(events)@ == old(events)@ + old(self)@.channel(channel_id).line_events(),
    {
        let low: u16 = (data % 0x1_0000) as u16;
        let high: u16 = (data / 0x1_0000) as u16;
        match channel_id {
            ChannelSelect::Primary => {
                self.primary.write_data16(low);
                self.primary.write_data16(high);
                self.primary.update_interrupt(events);
            },
            ChannelSelect::Secondary => {
                self.secondary.write_data16(low);
                self.secondary.write_data16(high);
                self.secondary.update_interrupt(events);
            },
        }
    }

    /// Whether the controller can take an access to its ports.
    pub fn takes_access(&self, port: u16, rwo: &RWOp) -> (r: bool)
        requires
            self@.wf(),
        ensures
            r == self@.takes(port, *rwo),
    {
        let (off, len): (usize, usize) = (rwo.offset(), rwo.len());
        if port == PORT_ATA0_CMD || port == PORT_ATA1_CMD {
            if off == 7 && len == 1 {
                match rwo {
                    RWOp::Read(_) => true,
                    RWOp::Write(wo) => if port == PORT_ATA0_CMD {
                        self.primary.can_take(wo.buf[0])
                    } else {
                        self.secondary.can_take(wo.buf[0])
                    },
                }
            } else {
                (off == 0 && (len == 2 || len == 4)) || (1 <= off && off <= 6 && len == 1)
            }
        } else {
            (port == PORT_ATA0_CTRL || port == PORT_ATA1_CTRL) && off == 0 && len == 1
        }
    }

    /// Services an access to the ports of the controller.
    pub fn pio_rw(&mut self, port: u16, rwo: RWOp, events: &mut Vec<PinEvent>) -> (r: RWOp)
        requires
            old(self)@.wf(),
            old(self)@.takes(port, rwo),
        ensures
            final(self)@.wf(),
            r.spec_offset() == rwo.spec_offset(),
            r is Read <==> rwo is Read,
            ({
                let id = port_channel(port);
                let (d, data) = channel_accessed(old(self)@.channel(id), port, rwo);
                &&& r.bytes() == data
                &&& final(self)@ == old(self)@.with_channel(id, d)
                &&& final(events)@ == old(events)@ + d.line_events()
            }),
    {
        let id: ChannelSelect = if port == PORT_ATA0_CMD || port == PORT_ATA0_CTRL {
            ChannelSelect::Primary
        } else {
            ChannelSelect::Secondary
        };
        match rwo {
            RWOp::Read(ro) => {
                let buf: Vec<u8> = if port == PORT_ATA0_CMD || port == PORT_ATA1_CMD {
                    self.read_command_block(id, ro.offset, ro.buf.len(), events)
                } else {
                    byte_vec(self.read_register(id, Registers::AltStatus, events))
                };
                RWOp::Read(ReadOp { offset: ro.offset, buf })
            },
            RWOp::Write(wo) => {
                if port == PORT_ATA0_CMD || port == PORT_ATA1_CMD {
                    self.write_command_block(id, wo.offset, &wo.buf, events);
                } else {
                    self.write_register(id, Registers::DeviceControl, wo.buf[0], events);
                }
                RWOp::Write(wo)
            },
        }
    }

    /// Reads from the command block of a channel.
    fn read_command_block(
        &mut self,
        id: ChannelSelect,
        offset: usize,
        len: usize,
        events: &mut Vec<PinEvent>,
    ) -> (r: Vec<u8>)
        requires
            old(self)@.wf(),
            (offset == 0 && (len == 2 || len == 4)) || (1 <= offset <= 7 && len == 1),
        ensures
            final(self)@.wf(),
            ({
                let c = old(self)@.channel(id);
                let (d, data) = if offset == 0 && len == 2 {
                    (c.data_got().0, le16(c.data_got().1))
                } else if offset == 0 {
                    (c.data32_got().0, le32(c.data32_got().1))
                } else {
                    (
                        c.register_got(command_read(offset as int)),
                        seq![c.register(command_read(offset as int))],
                    )
                };
                &&& r@ == data
                &&& final(self)@ == old(self)@.with_channel(id, d)
                &&& final(events)@ == old(events)@ + d.line_events()
            }),
    {
        match offset {
            0 => {
                if len == 2 {
                    le16_vec(self.read_data16(id, events))
                } else {
                    le32_vec(self.read_data32(id, events))
                }
            },
            1 => byte_vec(self.read_register(id, Registers::Error, events)),
            2 => byte_vec(self.read_register(id, Registers::SectorCount, events)),
            3 => byte_vec(self.read_register(id, Registers::LbaLow, events)),
            4 => byte_vec(self.read_register(id, Registers::LbaMid, events)),
            5 => byte_vec(self.read_register(id, Registers::LbaHigh, events)),
            6 => byte_vec(self.read_register(id, Registers::Device, events)),
            _ => byte_vec(self.read_register(id, Registers::Status, events)),
        }
    }

    /// Writes to the command block of a channel.
    fn write_command_block(
        &mut self,
        id: ChannelSelect,
        offset: usize,
        data: &Vec<u8>,
        events: &mut Vec<PinEvent>,
    )
        requires
            old(self)@.wf(),
            (offset == 0 && (data@.len() == 2 || data@.len() == 4)) || (1 <= offset <= 7
                && data@.len() == 1),
            offset == 7 ==> old(self)@.channel(id).accepts(Registers::Command, data@[0]),
        ensures
            final(self)@.wf(),
            ({
                let c = old(self)@.channel(id);
                let d = if offset == 0 {
                    c
                } else {
                    c.register_written(command_written(offset as int), data@[0])
                };
                &&& final(self)@ == old(self)@.with_channel(id, d)
                &&& final(events)@ == old(events)@ + d.line_events()
            }),
    {
        match offset {
            0 => {
                if data.len() == 2 {
                    self.write_data16(id, get_le16(data, 0), events);
                } else {
                    self.write_data32(id, get_le32(data, 0), events);
                }
            },
            1 => {
                self.write_register(id, Registers::Features, data[0], events);
            },
            2 => {
                self.write_register(id, Registers::SectorCount, data[0], events);
            },
            3 => {
                self.write_register(id, Registers::LbaLow, data[0], events);
            },
            4 => {
                self.write_register(id, Registers::LbaMid, data[0], events);
            },
            5 => {
                self.write_register(id, Registers::LbaHigh, data[0], events);
            },
            6 => {
                self.write_register(id, Registers::Device, data[0], events);
            },
            _ => {
                self.write_register(id, Registers::Command, data[0], events);
            },
        }
    }
}

} // verus!
