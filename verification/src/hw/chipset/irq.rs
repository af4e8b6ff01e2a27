//! How interrupts of the chipset reach the interrupt controller.
use crate::intr_pins::PinEvent;
use vstd::prelude::*;

verus! {

/// Number of lines of the interrupt controller.
pub const PIC_LINES: u8 = 16;

/// The line by which one chip of the interrupt controller reaches the other.
pub const PIC_CASCADE: u8 = 2;

/// The number of the first of the four lines that PCI devices drive. They come
/// after those of the interrupt controller.
pub const LNK_LINE_BASE: u32 = 16;

/// The line of the interrupt controller for power management events.
pub const SCI_IRQ: u8 = 9;

/// The line of the interrupt controller of a number, if devices can use it.
pub open spec fn pic_line(irq: u8) -> Option<u32> {
    if irq < PIC_LINES && irq != PIC_CASCADE {
        Some(irq as u32)
    } else {
        None
    }
}

/// The line of the interrupt controller of a number, if devices can use it.
pub fn pin_handle(irq: u8) -> (r: Option<u32>)
    ensures
        r == pic_line(irq),
{
    if irq < PIC_LINES && irq != PIC_CASCADE {
        Some(irq as u32)
    } else {
        None
    }
}

/// A line that leads to another one, which can be changed.
#[derive(Clone, Copy, Debug, PartialEq, Eq, Structural)]
pub struct LNKPin {
    pub asserted: bool,
    /// Where the line leads, if anywhere.
    pub pin: Option<u32>,
}

impl LNKPin {
    /// What leading elsewhere brings about: the level goes along.
    pub open spec fn reassign_events(self, new_pin: Option<u32>) -> Seq<PinEvent> {
        (match self.pin {
            Some(p) if self.asserted => seq![PinEvent::Deassert(p)],
            _ => Seq::empty(),
        }) + (match new_pin {
            Some(p) if self.asserted => seq![PinEvent::Assert(p)],
            _ => Seq::empty(),
        })
    }

    /// The line after a change of its level. A pulse leaves the level.
    pub open spec fn changed(self, ev: PinEvent) -> LNKPin {
        match ev {
            PinEvent::Assert(_) => LNKPin { asserted: true, ..self },
            PinEvent::Deassert(_) => LNKPin { asserted: false, ..self },
            PinEvent::Pulse(_) => self,
        }
    }

    /// What a change of the level brings about.
    pub open spec fn change_events(self, ev: PinEvent) -> Seq<PinEvent> {
        match self.pin {
            Some(p) => seq![
                match ev {
                    PinEvent::Assert(_) => PinEvent::Assert(p),
                    PinEvent::Deassert(_) => PinEvent::Deassert(p),
                    PinEvent::Pulse(_) => PinEvent::Pulse(p),
                },
            ],
            None => Seq::empty(),
        }
    }

    /// A line that leads nowhere.
    pub fn new() -> (r: Self)
        ensures
            r == (LNKPin { asserted: false, pin: None }),
    {
        LNKPin { asserted: false, pin: None }
    }

    /// Lets the line lead elsewhere.
    pub fn reassign(&mut self, new_pin: Option<u32>, events: &mut Vec<PinEvent>)
        ensures
            *final(self) == (LNKPin { pin: new_pin, ..*old(self) }),
            final(events)@ == old(events)@ + old(self).reassign_events(new_pin),
    {
        if let Some(old_pin) = self.pin {
            if self.asserted {
                events.push(PinEvent::Deassert(old_pin));
            }
        }
        if let Some(pin) = new_pin {
            if self.asserted {
                events.push(PinEvent::Assert(pin));
            }
        }
        self.pin = new_pin;
        assert(events@ =~= old(events)@ + old(self).reassign_events(new_pin));
    }

    /// Asserts the line.
    pub fn assert_line(&mut self, events: &mut Vec<PinEvent>)
        ensures
            *final(self) == old(self).changed(PinEvent::Assert(0)),
            final(events)@ == old(events)@ + old(self).change_events(PinEvent::Assert(0)),
    {
        self.asserted = true;
        if let Some(pin) = self.pin {
            events.push(PinEvent::Assert(pin));
        }
        assert(events@ =~= old(events)@ + old(self).change_events(PinEvent::Assert(0)));
    }

    /// Asserts the line no longer.
    pub fn deassert_line(&mut self, events: &mut Vec<PinEvent>)
        ensures
            *final(self) == old(self).changed(PinEvent::Deassert(0)),
            final(events)@ == old(events)@ + old(self).change_events(PinEvent::Deassert(0)),
    {
        self.asserted = false;
        if let Some(pin) = self.pin {
            events.push(PinEvent::Deassert(pin));
        }
        assert(events@ =~= old(events)@ + old(self).change_events(PinEvent::Deassert(0)));
    }

    /// Asserts the line for a moment.
    pub fn pulse(&self, events: &mut Vec<PinEvent>)
        ensures
            final(events)@ == old(events)@ + self.change_events(PinEvent::Pulse(0)),
    {
        if let Some(pin) = self.pin {
            events.push(PinEvent::Pulse(pin));
        }
        assert(events@ =~= old(events)@ + self.change_events(PinEvent::Pulse(0)));
    }

    /// Whether the line is asserted.
    pub fn is_asserted(&self) -> (r: bool)
        ensures
            r == self.asserted,
    {
        self.asserted
    }
}

/// The level of a line after some events.
pub open spec fn level(events: Seq<PinEvent>, line: u32, before: bool) -> bool
    decreases events.len(),
{
    if events.len() == 0 {
        before
    } else {
        let l = level(events.drop_last(), line, before);
        match events.last() {
            PinEvent::Assert(p) => l || p == line,
            PinEvent::Deassert(p) => l && p != line,
            PinEvent::Pulse(_) => l,
        }
    }
}

/// A line that leads elsewhere takes its level along: where it led, nothing of
/// it is left, where it leads, its level is found, and other lines are not
/// touched.
pub proof fn law_level_goes_along(p: LNKPin, new_pin: Option<u32>, line: u32, before: bool)
    requires
        p.pin == Some(line) ==> before == p.asserted,
        new_pin == Some(line) && p.pin != Some(line) ==> !before,
    ensures
        level(p.reassign_events(new_pin), line, before) == if new_pin == Some(line) {
            p.asserted
        } else if p.pin == Some(line) {
            false
        } else {
            before
        },
{
    reveal_with_fuel(level, 3);
    let ev = p.reassign_events(new_pin);
    if ev.len() == 2 {
        assert(ev.drop_last() =~= seq![ev[0]]);
        assert(seq![ev[0]].drop_last() =~= Seq::<PinEvent>::empty());
    } else if ev.len() == 1 {
        assert(ev.drop_last() =~= Seq::<PinEvent>::empty());
    }
}

/// The lines of the chipset, as values.
#[verifier::ext_equal]
pub struct IrqView {
    pub lnk: Seq<LNKPin>,
    pub sci: LNKPin,
}

/// The lines of the chipset: four that PCI devices drive, and one for power
/// management events.
#[derive(Clone, Copy, Debug)]
pub struct IrqConfig {
    pub lnk_pins: [LNKPin; 4],
    pub sci_pin: LNKPin,
}

impl View for IrqConfig {
    type V = IrqView;

    open spec fn view(&self) -> IrqView {
        IrqView { lnk: self.lnk_pins@, sci: self.sci_pin }
    }
}

impl IrqView {
    /// The lines with one of the four leading elsewhere.
    pub open spec fn routed(self, idx: int, pin: Option<u32>) -> IrqView {
        IrqView { lnk: self.lnk.update(idx, LNKPin { pin, ..self.lnk[idx] }), ..self }
    }
}

/// Where a line of a number leads, if a number is given.
pub open spec fn route_pin(irq: Option<u8>) -> Option<u32> {
    match irq {
        Some(i) => pic_line(i),
        None => None,
    }
}

impl IrqConfig {
    /// The lines when the power comes on: those of PCI devices lead nowhere.
    pub fn create() -> (r: Self)
        ensures
            r@.lnk == Seq::new(4, |i: int| LNKPin { asserted: false, pin: None }),
            r@.sci == (LNKPin { asserted: false, pin: Some(SCI_IRQ as u32) }),
    {
        let mut events: Vec<PinEvent> = Vec::new();
        let mut sci_pin: LNKPin = LNKPin::new();
        sci_pin.reassign(pin_handle(SCI_IRQ), &mut events);
        let r: IrqConfig = IrqConfig {
            lnk_pins: [LNKPin::new(), LNKPin::new(), LNKPin::new(), LNKPin::new()],
            sci_pin,
        };
        assert(r@.lnk =~= Seq::new(4, |i: int| LNKPin { asserted: false, pin: None }));
        r
    }

    /// Lets one of the four lines lead to a line of the interrupt controller.
    pub fn set_lnk_route(&mut self, idx: usize, irq: Option<u8>, events: &mut Vec<PinEvent>)
        requires
            idx <= 3,
        ensures
            final(self)@ == old(self)@.routed(idx as int, route_pin(irq)),
            final(events)@ == old(events)@ + old(self)@.lnk[idx as int].reassign_events(
                route_pin(irq),
            ),
    {
        let target: Option<u32> = match irq {
            Some(i) => pin_handle(i),
            None => None,
        };
        let mut pin: LNKPin = self.lnk_pins[idx];
        pin.reassign(target, events);
        self.lnk_pins[idx] = pin;
        assert(self@ =~= old(self)@.routed(idx as int, route_pin(irq)));
    }

    /// The number of one of the four lines.
    pub fn intr_pin(&self, idx: usize) -> (r: u32)
        requires
            idx <= 3,
        ensures
            r == LNK_LINE_BASE + idx,
    {
        LNK_LINE_BASE + idx as u32
    }

    /// Takes what a device does to one of the four lines.
    pub fn lnk_event(&mut self, idx: usize, ev: PinEvent, events: &mut Vec<PinEvent>)
        requires
            idx <= 3,
        ensures
            final(self)@ == (IrqView {
                lnk: old(self)@.lnk.update(idx as int, old(self)@.lnk[idx as int].changed(ev)),
                ..old(self)@
            }),
            final(events)@ == old(events)@ + old(self)@.lnk[idx as int].change_events(ev),
    {
        let mut pin: LNKPin = self.lnk_pins[idx];
        match ev {
            PinEvent::Assert(_) => {
                pin.assert_line(events);
            },
            PinEvent::Deassert(_) => {
                pin.deassert_line(events);
            },
            PinEvent::Pulse(_) => {
                pin.pulse(events);
            },
        }
        self.lnk_pins[idx] = pin;
        assert(self@.lnk =~= old(self)@.lnk.update(
            idx as int,
            old(self)@.lnk[idx as int].changed(ev),
        ));
    }
}

} // verus!
