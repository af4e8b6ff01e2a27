# propolis

Device models of a virtual machine, written in Verus: an NVMe controller, PCI
buses, bridges and devices, a PS/2 controller with its keyboard and mouse, ATA
drives, the i440FX/PIIX chipset, and the devices whose state a hypervisor holds.

Every function states what it does in a contract, and the contracts are proved.
The models are plain values. A device is changed by the accesses that a guest
makes to its registers, and what such an access brings about outside of the
device is handed back as a list of events: interrupts, lines, memory ranges that
are placed, requests to a disk. Whoever owns the device acts on these events.

- `src/common.rs`, `src/regmap.rs`, `src/bitfield.rs`, `src/addrspace.rs`: guest
  memory in runs with holes between them, register accesses, fields of registers,
  address spaces.
- `src/hw/nvme`: queues, commands, the controller, and its move to another host.
- `src/hw/pci`: BARs, MSI-X, configuration space, buses, bridges, topologies, and
  how the events of a device are applied to its bus.
- `src/hw/ps2`: scan codes and the controller.
- `src/hw/ata`: geometry, drives, the controller of two channels.
- `src/hw/chipset`: interrupt routing, power management, the chipset itself.
- `src/hw/bhyve`: the state that the hypervisor gives and takes.

Public proof functions whose names begin with `law_` state what holds of several
operations together: that a value written is read back, that a saved state is
restored, that ranges do not overlap, that the enabled BARs of a device are those
that its bus has placed.

`app/` puts the models together to a machine, which hands the accesses of its
guest to them and does on its host what their events ask for. It turns saved
states into a form that can be sent, talks to the hypervisor, and gives errors
their texts. `tests/` runs the library on concrete values.
