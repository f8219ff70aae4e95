//! The PCI bus: configuration addresses and the common header of devices.
use vstd::prelude::*;

verus! {

/// The port through which a configuration address is selected.
pub const CONFIG_ADDRESS_PORT: u16 = 0xCF8;
/// The port through which the selected configuration word is read.
pub const CONFIG_DATA_PORT: u16 = 0xCFC;

/// The configuration address of a function of a device on a bus.
pub open spec fn pci_address_spec(bus: u32, device: u32, func: u32) -> u32 {
    0x8000_0000u32 | (bus << 16u32) | (device << 11u32) | (func << 8u32)
}

/// Computes the configuration address of a function of a device on a bus.
///
/// There are 256 buses, 32 devices per bus and 8 functions per device.
pub fn pci_address(bus: u32, device: u32, func: u32) -> (r: u32)
    requires
        bus < 256,
        device < 32,
        func < 8,
    ensures
        r == pci_address_spec(bus, device, func),
{
    0x8000_0000u32 | (bus << 16u32) | (device << 11u32) | (func << 8u32)
}

/// The fields of a configuration address are found back in it.
pub proof fn lemma_pci_address_fields(bus: u32, device: u32, func: u32)
    requires
        bus < 256,
        device < 32,
        func < 8,
    ensures
        (pci_address_spec(bus, device, func) >> 16u32) & 0xFF == bus,
        (pci_address_spec(bus, device, func) >> 11u32) & 0x1F == device,
        (pci_address_spec(bus, device, func) >> 8u32) & 0x7 == func,
        pci_address_spec(bus, device, func) & 0xFF == 0,
        pci_address_spec(bus, device, func) <= 0x80FF_FF00,
{
    let a: u32 = 0x8000_0000u32 | (bus << 16u32) | (device << 11u32) | (func << 8u32);
    assert((a >> 16u32) & 0xFF == bus && (a >> 11u32) & 0x1F == device && (a >> 8u32) & 0x7 == func
        && a & 0xFF == 0 && a <= 0x80FF_FF00u32) by (bit_vector)
        requires
            a == 0x8000_0000u32 | (bus << 16u32) | (device << 11u32) | (func << 8u32),
            bus < 256,
            device < 32,
            func < 8,
    ;
}

/// Whether a function is present, from the first word of its configuration space: the vendor
/// identifier `0xFFFF` marks an absent one.
pub fn is_present(off0: u32) -> (r: bool)
    ensures
        r == ((off0 & 0xFFFF) != 0xFFFF),
{
    let vendor: u16 = (off0 & 0xFFFF) as u16;
    assert(((off0 & 0xFFFF) as u16 != 0xFFFFu16) == ((off0 & 0xFFFF) != 0xFFFFu32)) by (bit_vector);
    vendor != 0xFFFF
}

/// Whether a device has several functions, from the word at offset 12 of the configuration
/// space of its first function: bit 7 of the header type says so.
pub fn has_multiple_functions(off12: u32) -> (r: bool)
    ensures
        r == ((off12 >> 16u32) & 0x80 != 0),
{
    let header_type: u8 = (off12 >> 16u32) as u8;
    assert(((off12 >> 16u32) as u8 & 0x80u8 != 0) == ((off12 >> 16u32) & 0x80 != 0))
        by (bit_vector);
    header_type & 0x80 != 0
}

/// The header common to all PCI devices.
#[derive(Debug, Clone, Copy, PartialEq, Eq, Structural)]
pub struct CommonHeader {
    pub vendor_id: u16,
    pub device_id: u16,
    pub command: u16,
    pub status: u16,
    pub revision_id: u8,
    pub prog_if: u8,
    pub subclass: u8,
    pub class_code: u8,
    pub cache_line_size: u8,
    pub latency_timer: u8,
    pub header_type: u8,
    pub bist: u8,
}

/// The byte `k` (0 for the least significant) of a word.
pub open spec fn byte_of(w: u32, k: u32) -> u8 {
    ((w >> (8 * k) as u32) & 0xFF) as u8
}

/// The half `k` (0 for the least significant) of a word.
pub open spec fn half_of(w: u32, k: u32) -> u16 {
    ((w >> (16 * k) as u32) & 0xFFFF) as u16
}

impl CommonHeader {
    /// Decodes the common header from the first four words of the configuration space of a
    /// function (at offsets 0, 4, 8 and 12); there is none when no device answers, that is when
    /// the vendor is `0xFFFF`.
    pub fn read(words: [u32; 4]) -> (r: Option<Self>)
        ensures
            r is None <==> half_of(words@[0], 0) == 0xFFFF,
            r matches Some(h) ==> {
                &&& h.vendor_id == half_of(words@[0], 0)
                &&& h.device_id == half_of(words@[0], 1)
                &&& h.command == half_of(words@[1], 0)
                &&& h.status == half_of(words@[1], 1)
                &&& h.revision_id == byte_of(words@[2], 0)
                &&& h.prog_if == byte_of(words@[2], 1)
                &&& h.subclass == byte_of(words@[2], 2)
                &&& h.class_code == byte_of(words@[2], 3)
                &&& h.cache_line_size == byte_of(words@[3], 0)
                &&& h.latency_timer == byte_of(words@[3], 1)
                &&& h.header_type == byte_of(words@[3], 2)
                &&& h.bist == byte_of(words@[3], 3)
            },
    {
        let off0 = words[0];
        let off4 = words[1];
        let off8 = words[2];
        let off12 = words[3];
        proof {
            lemma_split_word(off0);
            lemma_split_word(off4);
            lemma_split_word(off8);
            lemma_split_word(off12);
        }
        let vendor_id = (off0 & 0xFFFF) as u16;
        if vendor_id == 0xFFFF {
            return None;
        }
        Some(CommonHeader {
            vendor_id,
            device_id: (off0 >> 16u32) as u16,
            command: (off4 & 0xFFFF) as u16,
            status: (off4 >> 16u32) as u16,
            revision_id: (off8 & 0xFF) as u8,
            prog_if: ((off8 >> 8u32) & 0xFF) as u8,
            subclass: ((off8 >> 16u32) & 0xFF) as u8,
            class_code: (off8 >> 24u32) as u8,
            cache_line_size: (off12 & 0xFF) as u8,
            latency_timer: ((off12 >> 8u32) & 0xFF) as u8,
            header_type: ((off12 >> 16u32) & 0xFF) as u8,
            bist: (off12 >> 24u32) as u8,
        })
    }
}

/// The bytes and halves of a word, as the header decoder extracts them.
proof fn lemma_split_word(w: u32)
    ensures
        half_of(w, 0) == (w & 0xFFFF) as u16,
        half_of(w, 1) == (w >> 16u32) as u16,
        byte_of(w, 0) == (w & 0xFF) as u8,
        byte_of(w, 1) == ((w >> 8u32) & 0xFF) as u8,
        byte_of(w, 2) == ((w >> 16u32) & 0xFF) as u8,
        byte_of(w, 3) == (w >> 24u32) as u8,
{
    assert(((w >> 0u32) & 0xFFFF) as u16 == (w & 0xFFFF) as u16 && ((w >> 16u32) & 0xFFFF) as u16
        == (w >> 16u32) as u16 && ((w >> 0u32) & 0xFF) as u8 == (w & 0xFF) as u8 && ((w >> 24u32)
        & 0xFF) as u8 == (w >> 24u32) as u8) by (bit_vector);
}

/// A device found on the PCI bus.
#[derive(Debug, Clone, Copy, PartialEq, Eq, Structural)]
pub struct PciDevice {
    /// The configuration address of the device.
    pub address: u32,
    /// The device identifier.
    pub id: u16,
    /// The vendor identifier.
    pub vendor: u16,
}

/// Describes the device found at `address`, from its common header.
pub fn device_of(address: u32, header: &CommonHeader) -> (r: PciDevice)
    ensures
        r == (PciDevice { address, id: header.device_id, vendor: header.vendor_id }),
{
    PciDevice { address, id: header.device_id, vendor: header.vendor_id }
}

/// Answers a request for the PCI devices of the system from a process that has room for
/// `room` of them: the first ones that fit, and the number of devices there are.
pub fn enumerate_pci_devices(devices: &[PciDevice], room: usize) -> (r: (Vec<PciDevice>, usize))
    ensures
        r.1 == devices@.len(),
        r.0@ == devices@.subrange(0, if room < devices@.len() {
            room as int
        } else {
            devices@.len() as int
        }),
{
    let n: usize = if room < devices.len() {
        room
    } else {
        devices.len()
    };
    let mut out: Vec<PciDevice> = Vec::new();
    let mut i: usize = 0;
    while i < n
        invariant
            n <= devices@.len(),
            i <= n,
            out@ == devices@.subrange(0, i as int),
        decreases n - i,
    {
        out.push(devices[i]);
        i = i + 1;
        assert(out@ =~= devices@.subrange(0, i as int));
    }
    (out, devices.len())
}

/// What the enumeration of the PCI bus reads next.
#[derive(Debug, Clone, Copy, PartialEq, Eq, Structural)]
pub enum PciAction {
    /// Read the first configuration word of the function at this address.
    ReadVendor(u32),
    /// Read the configuration word at this address, which holds the header type.
    ReadHeaderType(u32),
    /// Every device has been visited.
    Finished,
}

/// The enumeration of the devices of the PCI bus, one configuration read at a time.
///
/// Each device's first function is probed; a present one is reported, then its header type
/// says whether its other seven functions are probed too.
#[derive(Debug, Clone, Copy, PartialEq, Eq, Structural)]
pub struct PciScan {
    /// The bus being probed.
    pub bus: u32,
    /// The device being probed.
    pub device: u32,
    /// The function being probed.
    pub func: u32,
    /// Whether the header type of the device is to be read next.
    pub reading_header: bool,
    /// Whether the enumeration is over.
    pub done: bool,
}

impl PciScan {
    /// Whether the position of the scan is a valid one.
    pub open spec fn wf(self) -> bool {
        &&& self.bus < 256
        &&& self.device < 32
        &&& self.func < 8
        &&& self.reading_header ==> self.func == 0
    }

    /// What is read next.
    pub open spec fn action(self) -> PciAction {
        if self.done {
            PciAction::Finished
        } else if self.reading_header {
            PciAction::ReadHeaderType((pci_address_spec(self.bus, self.device, 0) + 12) as u32)
        } else {
            PciAction::ReadVendor(pci_address_spec(self.bus, self.device, self.func))
        }
    }

    /// The scan moved on to the first function of the next device.
    pub open spec fn next_device(self) -> PciScan {
        if self.device + 1 < 32 {
            PciScan { device: (self.device + 1) as u32, func: 0, reading_header: false, ..self }
        } else if self.bus + 1 < 256 {
            PciScan { bus: (self.bus + 1) as u32, device: 0, func: 0, reading_header: false, ..self }
        } else {
            PciScan { done: true, reading_header: false, ..self }
        }
    }

    /// The scan after the answer `word` to its read, and the device it found, if any.
    pub open spec fn step(self, word: u32) -> (PciScan, Option<u32>) {
        if self.done {
            (self, None)
        } else if self.reading_header {
            if (word >> 16u32) & 0x80 != 0 {
                (PciScan { func: 1, reading_header: false, ..self }, None)
            } else {
                (self.next_device(), None)
            }
        } else {
            let found = if (word & 0xFFFF) == 0xFFFF {
                None
            } else {
                Some(pci_address_spec(self.bus, self.device, self.func))
            };
            if self.func == 0 {
                if found is None {
                    (self.next_device(), None)
                } else {
                    (PciScan { reading_header: true, ..self }, found)
                }
            } else if self.func + 1 < 8 {
                (PciScan { func: (self.func + 1) as u32, ..self }, found)
            } else {
                (self.next_device(), found)
            }
        }
    }

    /// How far the scan is from its end; every answer brings it closer.
    pub open spec fn remaining(self) -> int {
        if self.done {
            0
        } else {
            ((255 - self.bus) * 32 + (31 - self.device)) * 10 + (if self.reading_header {
                8
            } else if self.func == 0 {
                9
            } else {
                8 - self.func
            }) + 1
        }
    }

    /// Starts the enumeration at the first function of the first device of the first bus.
    pub fn new() -> (r: Self)
        ensures
            r.wf(),
            !r.done,
            r.action() == PciAction::ReadVendor(pci_address_spec(0, 0, 0)),
    {
        PciScan { bus: 0, device: 0, func: 0, reading_header: false, done: false }
    }

    /// Returns what is read next.
    pub fn next_action(&self) -> (r: PciAction)
        requires
            self.wf(),
        ensures
            r == self.action(),
    {
        if self.done {
            PciAction::Finished
        } else if self.reading_header {
            proof {
                lemma_pci_address_fields(self.bus, self.device, 0);
            }
            PciAction::ReadHeaderType(pci_address(self.bus, self.device, 0) + 12)
        } else {
            PciAction::ReadVendor(pci_address(self.bus, self.device, self.func))
        }
    }

    /// Moves on to the first function of the next device.
    fn advance_device(&mut self)
        requires
            old(self).wf(),
        ensures
            *final(self) == old(self).next_device(),
    {
        if self.device + 1 < 32 {
            self.device = self.device + 1;
            self.func = 0;
            self.reading_header = false;
        } else if self.bus + 1 < 256 {
            self.bus = self.bus + 1;
            self.device = 0;
            self.func = 0;
            self.reading_header = false;
        } else {
            self.done = true;
            self.reading_header = false;
        }
    }

    /// Takes the answer to the last read and returns the address of the function it revealed,
    /// if any.
    pub fn on_answer(&mut self, word: u32) -> (r: Option<u32>)
        requires
            old(self).wf(),
        ensures
            final(self).wf(),
            (*final(self), r) == old(self).step(word),
            !old(self).done ==> final(self).remaining() < old(self).remaining(),
    {
        if self.done {
            return None;
        }
        if self.reading_header {
            if has_multiple_functions(word) {
                self.func = 1;
                self.reading_header = false;
            } else {
                self.advance_device();
            }
            return None;
        }
        let address = pci_address(self.bus, self.device, self.func);
        let found = if is_present(word) {
            Some(address)
        } else {
            None
        };
        if self.func == 0 {
            if found.is_none() {
                self.advance_device();
            } else {
                self.reading_header = true;
            }
        } else if self.func + 1 < 8 {
            self.func = self.func + 1;
        } else {
            self.advance_device();
        }
        found
    }
}

} // verus!
