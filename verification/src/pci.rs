//! PCI configuration space: address encoding, device records and BAR
//! decoding. The port accesses behind them happen outside; the scanner
//! is fed the raw register values it read.

use vstd::prelude::*;

use crate::bits::{get_bits_u32, set_bit_u32, spec_get_bits_u32, spec_set_bit_u32};
use crate::memory::address::PhysicalAddress;

verus! {

/// Device class of mass-storage controllers.
pub const DEVICE_CLASS_STORAGE: u8 = 0x01;

/// The config-space address for `(bus, device, function, offset)`: the
/// enable bit and the fields packed as ports 0xCF8/0xCFC expect.
pub open spec fn spec_pci_address(bus: u16, device: u16, function: u16, offset: u8) -> u32 {
    ((bus as u32) << 16) | ((device as u32) << 11) | ((function as u32) << 8) | ((offset as u32)
        & 0xFCu32) | 0x8000_0000
}

/// Encodes a config-space address.
pub fn get_pci_address(bus: u16, device: u16, function: u16, offset: u8) -> (r: u32)
    ensures
        r == spec_pci_address(bus, device, function, offset),
{
    ((bus as u32) << 16) | ((device as u32) << 11) | ((function as u32) << 8) | ((offset as u32)
        & 0xFCu32) | 0x8000_0000
}

/// One discovered PCI function, as read from config space.
#[derive(Debug, Clone)]
pub struct PciDevice {
    pub bus: u8,
    pub device: u8,
    pub function: u8,
    pub vendor_id: u16,
    pub device_id: u16,
    pub class_code: u8,
    pub subclass: u8,
    pub bars: Vec<u32>,
    pub header_type: u8,
}

impl PciDevice {
    /// Six base address registers were captured.
    pub open spec fn wf(&self) -> bool {
        self.bars@.len() == 6
    }

    /// The config address of this device's register at `offset`.
    pub fn config_address(&self, offset: u8) -> (r: u32)
        ensures
            r == spec_pci_address(
                self.bus as u16,
                self.device as u16,
                self.function as u16,
                offset,
            ),
    {
        get_pci_address(self.bus as u16, self.device as u16, self.function as u16, offset)
    }

    /// The command-register value that turns bus mastering on; writing
    /// it back to the register at offset 4 enables DMA.
    pub fn enable_bus_mastering(&self, command: u32) -> (r: u32)
        ensures
            r == spec_set_bit_u32(command, 2, true),
    {
        set_bit_u32(command, 2, true)
    }

    /// The command-register value that turns memory-space access on.
    pub fn enable_mmio(&self, command: u32) -> (r: u32)
        ensures
            r == spec_set_bit_u32(command, 1, true),
    {
        set_bit_u32(command, 1, true)
    }

    /// The memory address of BAR 0.
    pub fn read_bar0_memory_address(&self) -> (r: Option<PhysicalAddress>)
        requires
            self.wf(),
        ensures
            bar_memory_address(self.bars@, 0) == r,
    {
        self.read_bar_memory_address(0)
    }

    /// The memory address a BAR pair encodes: a 32-bit BAR holds it
    /// directly, a 64-bit BAR adds the next register as the high half.
    /// `None` for an I/O or reserved BAR type.
    pub fn read_bar_memory_address(&self, index: usize) -> (r: Option<PhysicalAddress>)
        requires
            self.wf(),
            index < 5,
        ensures
            bar_memory_address(self.bars@, index as int) == r,
    {
        let bar_lower = self.bars[index];
        let bar_type = get_bits_u32(bar_lower, 1, 3);
        let masked = bar_lower & 0xFFFF_FFF0;
        if bar_type == 0b00 {
            return Some(PhysicalAddress(masked as u64));
        }
        if bar_type != 0b10 {
            return None;
        }
        let bar_upper = self.bars[index + 1];
        Some(PhysicalAddress(((bar_upper as u64) << 32) | (masked as u64)))
    }
}

/// What a BAR pair at `index` encodes, as `read_bar_memory_address`
/// computes it.
pub open spec fn bar_memory_address(bars: Seq<u32>, index: int) -> Option<PhysicalAddress> {
    let bar_lower = bars[index];
    let bar_type = spec_get_bits_u32(bar_lower, 1, 3);
    let masked = bar_lower & 0xFFFF_FFF0;
    if bar_type == 0b00 {
        Some(PhysicalAddress(masked as u64))
    } else if bar_type == 0b10 {
        Some(PhysicalAddress(((bars[index + 1] as u64) << 32) | (masked as u64)))
    } else {
        None
    }
}

/// Collects the devices a bus walk finds.
pub struct PciScanner {
    pub devices: Vec<PciDevice>,
}

impl PciScanner {
    pub fn new() -> (r: PciScanner)
        ensures
            r.devices@.len() == 0,
    {
        PciScanner { devices: Vec::new() }
    }

    /// Records one `(bus, device, function)` probe: a vendor id of
    /// 0xFFFF means no device and records nothing.
    pub fn record_device(&mut self, probe: PciDevice) -> (r: bool)
        ensures
            if probe.vendor_id == 0xFFFF {
                r == false && final(self).devices == old(self).devices
            } else {
                r == true && final(self).devices@ == old(self).devices@.push(probe)
            },
    {
        if probe.vendor_id == 0xFFFF {
            return false;
        }
        self.devices.push(probe);
        true
    }
}

/// The PCI subsystem: its scanner with everything it found.
pub struct PciDriver {
    pub scanner: PciScanner,
}

impl PciDriver {
    /// Every recorded device.
    pub fn devices(&self) -> (r: &Vec<PciDevice>)
        ensures
            r == &self.scanner.devices,
    {
        &self.scanner.devices
    }

    /// The indices of the mass-storage devices, in discovery order.
    pub fn storage_devices(&self) -> (r: Vec<usize>)
        ensures
            forall|k: int|
                0 <= k < r@.len() ==> 0 <= #[trigger] r@[k] < self.scanner.devices@.len()
                    && self.scanner.devices@[r@[k] as int].class_code == DEVICE_CLASS_STORAGE,
            forall|i: int|
                0 <= i < self.scanner.devices@.len() && (#[trigger] self.scanner.devices@[i])
                    .class_code == DEVICE_CLASS_STORAGE ==> r@.contains(i as usize),
    {
        let mut r: Vec<usize> = Vec::new();
        let n = self.scanner.devices.len();
        let mut i: usize = 0;
        while i < n
            invariant
                0 <= i <= n,
                n == self.scanner.devices@.len(),
                forall|k: int|
                    0 <= k < r@.len() ==> 0 <= #[trigger] r@[k] < self.scanner.devices@.len()
                        && self.scanner.devices@[r@[k] as int].class_code == DEVICE_CLASS_STORAGE,
                forall|j: int|
                    0 <= j < i && (#[trigger] self.scanner.devices@[j]).class_code
                        == DEVICE_CLASS_STORAGE ==> r@.contains(j as usize),
            decreases n - i,
        {
            if self.scanner.devices[i].class_code == DEVICE_CLASS_STORAGE {
                let ghost r0 = r@;
                r.push(i);
                proof {
                    assert(r@[r@.len() - 1] == i as usize);
                    assert forall|x: usize| r0.contains(x) implies r@.contains(x) by {
                        let k = choose|k: int| 0 <= k < r0.len() && r0[k] == x;
                        assert(r@[k] == x);
                    }
                }
            }
            i = i + 1;
        }
        r
    }
}

/// One entry of a device's capability list.
#[derive(Debug, Clone, Copy, PartialEq, Eq, Structural)]
pub enum Capability {
    PowerManagement(u8),
    Pcie(u8),
    Msi(u8),
    Msix(MsixCapability),
    Other(u8),
}

/// The MSI-X capability registers.
#[derive(Debug, Clone, Copy, PartialEq, Eq, Structural)]
pub struct MsixCapability {
    pub message_control: u16,
    pub table_off_and_bar: u32,
    pub pba_off_and_bar: u32,
}

/// Walks a capability list; the config reads are handed in per step.
#[derive(Debug, Clone, Copy, PartialEq, Eq, Structural)]
pub struct CapabilitiesIter {
    pub offset: u8,
}

impl CapabilitiesIter {
    /// An iterator starting at the offset the capabilities pointer
    /// register gave.
    pub fn new(first_offset: u8) -> (r: CapabilitiesIter)
        ensures
            r.offset == first_offset,
    {
        CapabilitiesIter { offset: first_offset }
    }

    /// Classifies the capability whose id and follow-on registers were
    /// read at the current offset, and follows the `next` pointer. At
    /// offset zero the list has ended.
    pub fn next(
        &mut self,
        id: u8,
        next_offset: u8,
        message_control: u16,
        table_off_and_bar: u32,
        pba_off_and_bar: u32,
    ) -> (r: Option<(u8, Capability)>)
        ensures
            old(self).offset == 0 ==> r is None && final(self).offset == 0,
            old(self).offset != 0 ==> final(self).offset == next_offset && r == Some(
                (
                    old(self).offset,
                    match id {
                        0x01u8 => Capability::PowerManagement((old(self).offset + 2) as u8),
                        0x05u8 => Capability::Msi((old(self).offset + 2) as u8),
                        0x10u8 => Capability::Pcie((old(self).offset + 2) as u8),
                        0x11u8 => Capability::Msix(
                            MsixCapability { message_control, table_off_and_bar, pba_off_and_bar },
                        ),
                        _ => Capability::Other((old(self).offset + 2) as u8),
                    },
                ),
            ),
    {
        if self.offset == 0 {
            return None;
        }
        let current_offset = self.offset;
        self.offset = next_offset;
        let capability_offset = current_offset.wrapping_add(2);
        proof {
            assert(capability_offset == (current_offset + 2) as u8) by (bit_vector)
                requires
                    capability_offset == current_offset.wrapping_add(2),
            ;
        }
        let capability = match id {
            0x01 => Capability::PowerManagement(capability_offset),
            0x05 => Capability::Msi(capability_offset),
            0x10 => Capability::Pcie(capability_offset),
            0x11 => Capability::Msix(
                MsixCapability { message_control, table_off_and_bar, pba_off_and_bar },
            ),
            _ => Capability::Other(capability_offset),
        };
        Some((current_offset, capability))
    }
}

} // verus!
