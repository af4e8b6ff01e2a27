use propolis::common::{RWOp, ReadOp, WriteOp};
use propolis::hw::ata::controller::AtaController;
use propolis::hw::chipset::i440fx::{route_lintr, CfgOutcome, I440Fx, Opts, Piix4HostBridge};
use propolis::hw::chipset::irq::{pin_handle, IrqConfig, LNKPin};
use propolis::hw::chipset::lpc::{valid_pir_irq, LpcCtx, Piix3Lpc};
use propolis::hw::chipset::piix3_ide::Piix3IdeCtrl;
use propolis::hw::chipset::pm::{PMRegs, Piix3PM, Piix3PmV1, PmCntrl, PmCtx};
use propolis::hw::chipset::Chipset;
use propolis::hw::pci::bar::BarDefine;
use propolis::hw::pci::bus::Attachment;
use propolis::hw::pci::cfgspace::CfgReg;
use propolis::hw::pci::device::{DevCtx, DeviceState, SlotInfo};
use propolis::hw::pci::topology::Builder;
use propolis::hw::pci::{BarN, Bdf, BusLocation, INTxPinID};
use propolis::intr_pins::PinEvent;
use propolis::migrate::MigrateStateError;

fn dev_ctx() -> DevCtx {
    DevCtx {
        slot: SlotInfo { is_multifunc: true, lintr_asserted: false },
        events: Vec::new(),
    }
}

fn read_op(off: usize, len: usize) -> RWOp {
    RWOp::Read(ReadOp::from_buf(off, vec![0; len]))
}

fn write_op(off: usize, data: &[u8]) -> RWOp {
    RWOp::Write(WriteOp::from_buf(off, data.to_vec()))
}

fn bytes(op: RWOp) -> Vec<u8> {
    match op {
        RWOp::Read(ro) => ro.buf,
        RWOp::Write(wo) => wo.buf,
    }
}

fn place(dev: u8, func: u8) -> Attachment {
    Attachment { location: BusLocation::new(dev, func).unwrap(), lintr_cfg: None }
}

#[test]
fn lines_of_the_interrupt_controller() {
    assert_eq!(pin_handle(0), Some(0));
    assert_eq!(pin_handle(15), Some(15));
    // Two controllers are joined by line 2
    assert_eq!(pin_handle(2), None);
    assert_eq!(pin_handle(16), None);
    let valid: Vec<u8> = (0..=20).filter(|i| valid_pir_irq(*i)).collect();
    assert_eq!(valid, vec![3, 4, 5, 6, 7, 9, 10, 11, 12, 14, 15]);
}

#[test]
fn level_goes_along_with_the_route() {
    let mut pin = LNKPin::new();
    let mut events = Vec::new();
    pin.reassign(Some(5), &mut events);
    pin.assert_line(&mut events);
    assert!(pin.is_asserted());
    assert_eq!(events, vec![PinEvent::Assert(5)]);
    events.clear();
    pin.reassign(Some(10), &mut events);
    assert_eq!(events, vec![PinEvent::Deassert(5), PinEvent::Assert(10)]);
    events.clear();
    pin.deassert_line(&mut events);
    assert_eq!(events, vec![PinEvent::Deassert(10)]);
    assert!(!pin.is_asserted());
}

#[test]
fn routes_are_set_apart() {
    let mut irq = IrqConfig::create();
    let mut events = Vec::new();
    irq.set_lnk_route(1, Some(11), &mut events);
    irq.lnk_event(1, PinEvent::Assert(irq.intr_pin(1)), &mut events);
    irq.lnk_event(2, PinEvent::Assert(irq.intr_pin(2)), &mut events);
    // The other one leads nowhere
    assert_eq!(events, vec![PinEvent::Assert(11)]);
    assert_eq!((irq.intr_pin(0), irq.intr_pin(3)), (16, 19));
}

fn lpc() -> (Piix3Lpc, LpcCtx) {
    let mut l = Piix3Lpc::create(IrqConfig::create());
    l.pci_attach(place(1, 0));
    (l, LpcCtx { dev: dev_ctx(), pins: Vec::new() })
}

#[test]
fn routing_registers_keep_what_is_written() {
    let (mut l, mut ctx) = lpc();
    assert_eq!(bytes(l.cfg_rw(read_op(0, 4), &mut ctx)), vec![0x86, 0x80, 0x00, 0x70]);
    l.cfg_rw(write_op(0x60, &[0x0a, 0x0b, 0x80, 0x02]), &mut ctx);
    assert_eq!(bytes(l.cfg_rw(read_op(0x60, 4), &mut ctx)), vec![0x0a, 0x0b, 0x80, 0x02]);
    let mut events = Vec::new();
    l.irq_config.lnk_event(0, PinEvent::Assert(16), &mut events);
    // The third route is disabled, and line 2 cannot be used
    l.irq_config.lnk_event(2, PinEvent::Assert(18), &mut events);
    l.irq_config.lnk_event(3, PinEvent::Assert(19), &mut events);
    assert_eq!(events, vec![PinEvent::Assert(10)]);
}

#[test]
fn ports_of_the_bridge() {
    let (mut l, _) = lpc();
    assert_eq!(l.attach(), [(0x92, 1), (0x80, 1)]);
    assert_eq!(bytes(l.pio_rw(0x92, read_op(0, 1))), vec![2]);
    l.pio_rw(0x80, write_op(0, &[0x5a]));
    assert_eq!(bytes(l.pio_rw(0x80, read_op(0, 1))), vec![0x5a]);
}

#[test]
fn bridge_moves() {
    let (mut a, mut ctx) = lpc();
    l_setup(&mut a, &mut ctx);
    let (state, pci) = a.export();
    let (mut b, mut ctx) = lpc();
    assert_eq!(b.import(state, pci, &mut ctx), Ok(()));
    assert_eq!(bytes(b.cfg_rw(read_op(0x60, 4), &mut ctx)), vec![0x0a, 0, 0, 0]);
    assert_eq!(bytes(b.pio_rw(0x80, read_op(0, 1))), vec![7]);
}

fn l_setup(l: &mut Piix3Lpc, ctx: &mut LpcCtx) {
    l.write_pir(0, 0x0a, ctx);
    l.pio_rw(0x80, write_op(0, &[7]));
}

fn pm() -> (Piix3PM, PmCtx) {
    let mut p = Piix3PM::create(Some(77));
    p.pci_attach(place(1, 3));
    (p, PmCtx { dev: dev_ctx(), pins: Vec::new() })
}

#[test]
fn power_goes_off() {
    let (mut p, mut ctx) = pm();
    assert_eq!(p.attach(), ((0xb000, 0x40), 0xb008));
    // The kind of sleep that is off, and the order to sleep
    p.pio_rw(write_op(4, &0x2000u16.to_le_bytes()), &mut ctx);
    assert_eq!(ctx.pins, vec![PinEvent::Pulse(77)]);
    // The order itself is not kept
    assert_eq!(bytes(p.pio_rw(read_op(4, 2), &mut ctx)), vec![0, 0]);
    ctx.pins.clear();
    // Another kind of sleep
    p.pio_rw(write_op(4, &0x2401u16.to_le_bytes()), &mut ctx);
    assert!(ctx.pins.is_empty());
    assert_eq!(bytes(p.pio_rw(read_op(4, 2), &mut ctx)), 0x0401u16.to_le_bytes());
}

#[test]
fn power_button_status_is_cleared_by_writing() {
    let (mut p, mut ctx) = pm();
    p.regs.pwrbtn_sts = true;
    assert_eq!(bytes(p.pio_rw(read_op(0, 2), &mut ctx)), 0x100u16.to_le_bytes());
    p.pio_rw(write_op(0, &[0, 0]), &mut ctx);
    assert!(p.regs.pwrbtn_sts);
    p.pio_rw(write_op(0, &[0, 1]), &mut ctx);
    assert!(!p.regs.pwrbtn_sts);
    p.pio_rw(write_op(2, &[0, 1]), &mut ctx);
    assert_eq!(bytes(p.pio_rw(read_op(2, 2), &mut ctx)), 0x100u16.to_le_bytes());
}

#[test]
fn power_management_is_configured() {
    let (mut p, mut ctx) = pm();
    // The port of the registers, and whether they are enabled
    assert_eq!(bytes(p.cfg_rw(read_op(0x40, 4), &mut ctx)), 0xb001u32.to_le_bytes());
    assert_eq!(bytes(p.cfg_rw(read_op(0x80, 1), &mut ctx)), vec![1]);
    p.cfg_rw(write_op(0x40, &[0, 0, 0, 0]), &mut ctx);
    assert_eq!(bytes(p.cfg_rw(read_op(0x40, 4), &mut ctx)), 0xb001u32.to_le_bytes());
    // The hypervisor is told the port of the timer once
    assert_eq!(p.ensure_pmtmr_located(), Some(0xb008));
    assert_eq!(p.ensure_pmtmr_located(), None);
    p.reset(&mut ctx);
    assert_eq!(p.regs, PMRegs::default());
}

#[test]
fn controls_have_bits() {
    for v in [0u16, 0x1, 0x2000, 0x1c00, 0x3c01] {
        assert_eq!(PmCntrl::from_bits_truncate(v).bits(), v);
    }
    assert_eq!(PmCntrl::from_bits_truncate(0xffff).bits(), 0x3c01);
}

fn pm_moved(f: fn(&mut Piix3PmV1)) -> (Piix3PM, Result<(), MigrateStateError>) {
    let (mut a, mut ctx) = pm();
    a.pio_rw(write_op(2, &[0, 1]), &mut ctx);
    a.pio_rw(write_op(4, &[1, 0]), &mut ctx);
    let (mut state, pci) = a.export();
    f(&mut state);
    let (mut b, mut ctx) = pm();
    let res = b.import(state, pci, &mut ctx);
    (b, res)
}

#[test]
fn power_management_moves() {
    let (b, res) = pm_moved(|_| ());
    assert_eq!(res, Ok(()));
    assert!(b.regs.pwrbtn_en);
    assert!(b.regs.pm_ctrl.sci_en);
    assert_eq!(pm_moved(|s| s.pm_status = 1).1, Err(MigrateStateError::Piix3PmStatus(1)));
    assert_eq!(pm_moved(|s| s.pm_ena = 2).1, Err(MigrateStateError::Piix3PmEna(2)));
    assert_eq!(pm_moved(|s| s.pm_ctrl = 2).1, Err(MigrateStateError::Piix3PmCtrl(2)));
}

fn chipset() -> I440Fx {
    let topology = Builder::new().finish().ok().unwrap().topology;
    I440Fx::create(
        topology,
        Opts { enable_pcie: true, power_pin: Some(77), reset_pin: Some(78) },
    )
}

fn done(o: CfgOutcome) -> Vec<u8> {
    match o {
        CfgOutcome::Done(r) => bytes(r.op),
        CfgOutcome::Device(..) => panic!(),
    }
}

#[test]
fn chipset_has_its_functions() {
    let mut c = chipset();
    let id = |c: &mut I440Fx, dev, func| {
        done(c.pci_cfg_rw(Bdf::new(0, dev, func).unwrap(), read_op(0, 4)))
    };
    assert_eq!(id(&mut c, 0, 0), vec![0x86, 0x80, 0x37, 0x12]);
    assert_eq!(id(&mut c, 1, 0), vec![0x86, 0x80, 0x00, 0x70]);
    assert_eq!(id(&mut c, 1, 3), vec![0x86, 0x80, 0x13, 0x71]);
    // Nothing else is there
    assert_eq!(id(&mut c, 5, 0), vec![0xff; 4]);
}

#[test]
fn chipset_decodes_configuration_accesses() {
    let mut c = chipset();
    assert_eq!(c.ranges().config_addr, (0xcf8, 4));
    assert_eq!(c.ranges().config_data, (0xcfc, 4));
    assert_eq!(c.ranges().ecam, Some((0xe000_0000, 0x1000_0000)));
    // Function 3 of device 1, register 0
    done(c.pio_rw(0xcf8, write_op(0, &0x8000_0b00u32.to_le_bytes())));
    assert_eq!(done(c.pio_rw(0xcfc, read_op(0, 4))), vec![0x86, 0x80, 0x13, 0x71]);
    assert_eq!(done(c.pcie_ecam_rw(read_op(0xb000, 4))), vec![0x86, 0x80, 0x13, 0x71]);
    // The address moves along
    let saved = c.export();
    assert_eq!(saved.pci_cfg_addr, 0x8000_0b00);
    let mut d = chipset();
    d.import(saved);
    assert_eq!(done(d.pio_rw(0xcfc, read_op(2, 2))), vec![0x13, 0x71]);
}

#[test]
fn attached_devices_are_reached() {
    let mut c = chipset();
    let a = c.pci_attach(Bdf::new(0, 4, 0).unwrap(), 3);
    let lintr = a.lintr_cfg.unwrap();
    assert_eq!(lintr, route_lintr(a.location));
    assert_eq!((lintr.id, lintr.line), (INTxPinID::IntB, 16));
    match c.pci_cfg_rw(Bdf::new(0, 4, 0).unwrap(), read_op(8, 4)) {
        CfgOutcome::Device(3, op) => assert_eq!((op.offset(), op.len()), (8, 4)),
        _ => panic!(),
    }
    assert_eq!(c.irq_pin(4), Some(4));
    assert_eq!(c.irq_pin(2), None);
    assert_eq!(c.power_pin(), Some(77));
    assert_eq!(c.reset_pin(), Some(78));
}

#[test]
fn interrupts_of_devices_are_routed() {
    let mut c = chipset();
    let line = c.pci_attach(Bdf::new(0, 4, 0).unwrap(), 3).lintr_cfg.unwrap().line;
    let mut events = Vec::new();
    c.pin_event(PinEvent::Assert(line), &mut events);
    assert!(events.is_empty());
    let pir = 0x60 + (line - 16) as usize;
    match c.pci_cfg_rw(Bdf::new(0, 1, 0).unwrap(), write_op(pir, &[11])) {
        // The level is passed on to the new line
        CfgOutcome::Done(r) => assert_eq!(r.pins, vec![PinEvent::Assert(11)]),
        CfgOutcome::Device(..) => panic!(),
    }
    c.pin_event(PinEvent::Deassert(line), &mut events);
    assert_eq!(events, vec![PinEvent::Deassert(11)]);
}

#[test]
fn lines_are_shared_out() {
    let line = |dev, func| route_lintr(BusLocation::new(dev, func).unwrap()).line;
    // Neighbours use different lines
    for dev in 0..31 {
        assert_ne!(line(dev, 0), line(dev + 1, 0));
    }
    assert_ne!(line(4, 0), line(4, 1));
    assert_eq!(line(4, 0), line(8, 0));
}

#[test]
fn host_bridge_moves() {
    let a = Piix4HostBridge::create();
    let mut b = Piix4HostBridge::create();
    let saved = a.export();
    let mut ctx = dev_ctx();
    assert_eq!(b.import(saved, &mut ctx), Ok(()));
    b.reset(&mut ctx);
}

#[test]
fn disk_controller_uses_its_lines() {
    let c = chipset();
    let mut ide = Piix3IdeCtrl::create(AtaController::create());
    assert_eq!(ide.attach_pio(), vec![(0x1f0, 8), (0x170, 8), (0x3f6, 2), (0x376, 2)]);
    ide.attach_irq(&c);
    let mut events = Vec::new();
    // There is no drive
    assert_eq!(bytes(ide.pio_rw(0x1f0, read_op(7, 1), &mut events)), vec![0x7f]);
    let mut ctx = dev_ctx();
    ide.reset(&mut ctx);
}

#[test]
fn devices_of_the_chipset_have_their_regions() {
    let regions = |d: &DeviceState| -> Vec<(CfgReg, usize, usize)> {
        d.regions.iter().map(|r| (r.id, r.start, r.len)).collect()
    };
    let std = (CfgReg::Std, 0, 0x40);
    let hb = Piix4HostBridge::create();
    assert_eq!(regions(&hb.pci_state), vec![std]);
    let (l, _) = lpc();
    assert_eq!(regions(&l.pci_state), vec![std, (CfgReg::Custom(0x60), 0x60, 4)]);
    let (p, _) = pm();
    assert_eq!(regions(&p.pci_state), vec![std, (CfgReg::Custom(0x40), 0x40, 0x98)]);
    let ide = Piix3IdeCtrl::create(AtaController::create());
    assert_eq!(regions(&ide.pci_state), vec![std]);
    for d in [&hb.pci_state, &l.pci_state, &p.pci_state, &ide.pci_state] {
        assert!(d.caps.is_empty() && d.msix_cfg.is_none());
        assert_eq!((d.reg_command.bits(), d.reg_intr_line), (0, 0xff));
    }
    assert_eq!(hb.pci_state.bars.get(BarN::BAR0), None);
    assert_eq!(ide.pci_state.bars.get(BarN::BAR3), Some((BarDefine::Pio(4), 0)));
    assert_eq!(chipset().dev_lpc.irq_config.sci_pin.pin, Some(9));
}
