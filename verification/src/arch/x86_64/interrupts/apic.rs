//! The interrupt controllers: what the firmware's table says of them, and
//! what to write to their registers.

use crate::drivers::fs::vfs::VfsError;
use crate::libs::endian::{le_u16, le_u32, le_u64, read_le_u16, read_le_u32, read_le_u64};
use vstd::prelude::*;

verus! {

/// A value to write to a register, or to an I/O port.
#[derive(Clone, Copy, Debug, PartialEq, Eq, Structural)]
pub struct RegisterWrite {
    pub reg: u32,
    pub value: u32,
}

/// Whether the processor has a local APIC, going by the `edx` of `cpuid`
/// leaf 1.
pub fn has_apic(edx: u32) -> (r: bool)
    ensures
        r == (edx & 0x200 != 0),
{
    edx & 0x200 != 0
}

/// What to write to the low half of the APIC base register to enable the
/// APIC at `apic`.
pub fn apic_base_value(apic: usize) -> (r: u32)
    ensures
        r == (((apic as u64) & 0xffff_0000) | 0x800) as u32,
{
    let v: u64 = ((apic as u64) & 0xf_ffff_0000) | 0x800;
    assert((v & 0xffff_ffff) == (((apic as u64) & 0xffff_0000) | 0x800)) by (bit_vector)
        requires
            v == ((apic as u64) & 0xf_ffff_0000) | 0x800,
    ;
    assert((((apic as u64) & 0xffff_0000) | 0x800) <= 0xffff_ffff) by (bit_vector);
    (v & 0xffff_ffff) as u32
}

/// The address of the APIC, going by the low half of the APIC base
/// register.
pub fn apic_base(eax: u32) -> (r: u32)
    ensures
        r == eax & 0xfffff000,
{
    eax & 0xfffff000
}

/// A processor's local APIC, as the firmware lists it.
#[derive(Clone, Copy, Debug, PartialEq, Eq, Structural)]
pub struct LAPIC {
    pub acpi_processor_id: u8,
    pub apic_id: u8,
    pub flags: u32,
}

/// An I/O APIC, as the firmware lists it.
#[derive(Clone, Copy, Debug, PartialEq, Eq, Structural)]
pub struct IOAPIC {
    pub ioapic_id: u8,
    pub _reserved: u8,
    /// The virtual address of its registers.
    pub ptr: usize,
    pub global_interrupt_base: u32,
}

/// An interrupt source that the firmware routes otherwise than by default.
#[derive(Clone, Copy, Debug, PartialEq, Eq, Structural)]
pub struct IOAPICSourceOverride {
    pub bus_source: u8,
    pub irq_source: u8,
    pub global_system_interrupt: u32,
    pub flags: u16,
}

/// What the firmware's table says of the interrupt controllers, as far as
/// it has been read.
pub struct MadtState {
    pub cpus: Seq<LAPIC>,
    pub io_apic: Option<IOAPIC>,
    pub io_apic_source_override: Option<IOAPICSourceOverride>,
    pub local_apic: usize,
}

/// The interrupt controllers.
#[derive(Debug)]
pub struct APIC {
    pub io_apic: IOAPIC,
    /// The virtual address of the registers of the local APIC.
    pub local_apic: usize,
    pub cpus: Vec<LAPIC>,
}

/// `address`, moved to the higher half that starts at `hhdm_offset`.
pub open spec fn higher_half(address: int, hhdm_offset: usize) -> Option<usize> {
    if address + hhdm_offset <= usize::MAX {
        Some((address + hhdm_offset) as usize)
    } else {
        None
    }
}

/// What the entries of the table say, from byte `i` of the entries on.
///
/// An entry begins with its type and its length. Type 0 is a processor:
/// it counts if it is enabled. Type 1 is the I/O APIC, type 2 an interrupt
/// source override; of each the last one counts. Type 5 gives the local
/// APIC another address. Other types are passed over. An entry that claims
/// to be longer than what is left ends the table. `Corrupt` where an entry
/// has no length or is too short for its type, or an address does not fit
/// the address space.
pub open spec fn madt_scan(
    entries: Seq<u8>,
    i: int,
    hhdm_offset: usize,
    state: MadtState,
) -> Result<MadtState, VfsError>
    decreases entries.len() - i,
{
    if i < 0 || i >= entries.len() {
        Ok(state)
    } else if i + 2 > entries.len() || entries[i + 1] == 0 {
        Err(VfsError::Corrupt)
    } else {
        let kind = entries[i];
        let next = if i + entries[i + 1] > entries.len() {
            entries.len() as int
        } else {
            i + entries[i + 1]
        };
        if kind == 0 {
            if i + 8 > entries.len() {
                Err(VfsError::Corrupt)
            } else if entries[i + 4] & 1 != 0 {
                madt_scan(
                    entries,
                    next,
                    hhdm_offset,
                    MadtState {
                        cpus: state.cpus.push(
                            LAPIC {
                                acpi_processor_id: entries[i + 2],
                                apic_id: entries[i + 3],
                                flags: le_u32(entries, i + 4),
                            },
                        ),
                        ..state
                    },
                )
            } else {
                madt_scan(entries, next, hhdm_offset, state)
            }
        } else if kind == 1 {
            if i + 12 > entries.len() {
                Err(VfsError::Corrupt)
            } else {
                match higher_half(le_u32(entries, i + 4) as int, hhdm_offset) {
                    None => Err(VfsError::Corrupt),
                    Some(ptr) => madt_scan(
                        entries,
                        next,
                        hhdm_offset,
                        MadtState {
                            io_apic: Some(
                                IOAPIC {
                                    ioapic_id: entries[i + 2],
                                    _reserved: entries[i + 3],
                                    ptr,
                                    global_interrupt_base: le_u32(entries, i + 8),
                                },
                            ),
                            ..state
                        },
                    ),
                }
            }
        } else if kind == 2 {
            if i + 10 > entries.len() {
                Err(VfsError::Corrupt)
            } else {
                madt_scan(
                    entries,
                    next,
                    hhdm_offset,
                    MadtState {
                        io_apic_source_override: Some(
                            IOAPICSourceOverride {
                                bus_source: entries[i + 2],
                                irq_source: entries[i + 3],
                                global_system_interrupt: le_u32(entries, i + 4),
                                flags: le_u16(entries, i + 8),
                            },
                        ),
                        ..state
                    },
                )
            }
        } else if kind == 5 {
            if i + 12 > entries.len() {
                Err(VfsError::Corrupt)
            } else {
                match higher_half(le_u64(entries, i + 4) as int, hhdm_offset) {
                    None => Err(VfsError::Corrupt),
                    Some(ptr) => madt_scan(
                        entries,
                        next,
                        hhdm_offset,
                        MadtState { local_apic: ptr, ..state },
                    ),
                }
            }
        } else {
            madt_scan(entries, next, hhdm_offset, state)
        }
    }
}

/// The interrupt controllers that the firmware's table tells of, where the
/// table gives `local_apic_address` for the local APIC and is followed by
/// the entries `entries`.
///
/// `NotFound` where the entries name no I/O APIC or no interrupt source
/// override.
pub open spec fn spec_from_madt(local_apic_address: u32, entries: Seq<u8>, hhdm_offset: usize) -> Result<
    MadtState,
    VfsError,
> {
    match higher_half(local_apic_address as int, hhdm_offset) {
        None => Err(VfsError::Corrupt),
        Some(local_apic) => match madt_scan(
            entries,
            0,
            hhdm_offset,
            MadtState {
                cpus: Seq::empty(),
                io_apic: None,
                io_apic_source_override: None,
                local_apic,
            },
        ) {
            Err(e) => Err(e),
            Ok(state) => if state.io_apic is None || state.io_apic_source_override is None {
                Err(VfsError::NotFound)
            } else {
                Ok(state)
            },
        },
    }
}

/// `address`, moved to the higher half; see [`higher_half`].
fn to_higher_half(address: u64, hhdm_offset: usize) -> (r: Option<usize>)
    ensures
        r == higher_half(address as int, hhdm_offset),
{
    if address > usize::MAX as u64 {
        return None;
    }
    (address as usize).checked_add(hhdm_offset)
}

impl APIC {
    /// Reads what the firmware's table says of the interrupt controllers;
    /// see [`spec_from_madt`].
    #[verifier::loop_isolation(false)]
    pub fn from_madt(local_apic_address: u32, entries: &[u8], hhdm_offset: usize) -> (r: Result<
        Self,
        VfsError,
    >)
        ensures
            match (r, spec_from_madt(local_apic_address, entries@, hhdm_offset)) {
                (Ok(apic), Ok(state)) => apic.cpus@ == state.cpus && Some(apic.io_apic)
                    == state.io_apic && apic.local_apic == state.local_apic,
                (Err(e1), Err(e2)) => e1 == e2,
                _ => false,
            },
    {
        let mut lapic_ptr = match to_higher_half(local_apic_address as u64, hhdm_offset) {
            Some(ptr) => ptr,
            None => {
                return Err(VfsError::Corrupt);
            },
        };
        let mut cpus: Vec<LAPIC> = Vec::new();
        let mut io_apic: Option<IOAPIC> = None;
        let mut io_apic_source_override: Option<IOAPICSourceOverride> = None;
        let ghost start = MadtState {
            cpus: Seq::empty(),
            io_apic: None,
            io_apic_source_override: None,
            local_apic: lapic_ptr,
        };

        let mut ptr: usize = 0;
        while ptr < entries.len()
            invariant
                madt_scan(entries@, 0, hhdm_offset, start) == madt_scan(
                    entries@,
                    ptr as int,
                    hhdm_offset,
                    MadtState {
                        cpus: cpus@,
                        io_apic,
                        io_apic_source_override,
                        local_apic: lapic_ptr,
                    },
                ),
            decreases entries.len() - ptr,
        {
            if entries.len() - ptr < 2 || entries[ptr + 1] == 0 {
                return Err(VfsError::Corrupt);
            }
            let left = entries.len() - ptr;
            match entries[ptr] {
                0 => {
                    if left < 8 {
                        return Err(VfsError::Corrupt);
                    }
                    if entries[ptr + 4] & 1 != 0 {
                        cpus.push(
                            LAPIC {
                                acpi_processor_id: entries[ptr + 2],
                                apic_id: entries[ptr + 3],
                                flags: read_le_u32(entries, ptr + 4),
                            },
                        );
                    }
                },
                1 => {
                    if left < 12 {
                        return Err(VfsError::Corrupt);
                    }
                    let address = match to_higher_half(
                        read_le_u32(entries, ptr + 4) as u64,
                        hhdm_offset,
                    ) {
                        Some(address) => address,
                        None => {
                            return Err(VfsError::Corrupt);
                        },
                    };
                    io_apic = Some(
                        IOAPIC {
                            ioapic_id: entries[ptr + 2],
                            _reserved: entries[ptr + 3],
                            ptr: address,
                            global_interrupt_base: read_le_u32(entries, ptr + 8),
                        },
                    );
                },
                2 => {
                    if left < 10 {
                        return Err(VfsError::Corrupt);
                    }
                    io_apic_source_override = Some(
                        IOAPICSourceOverride {
                            bus_source: entries[ptr + 2],
                            irq_source: entries[ptr + 3],
                            global_system_interrupt: read_le_u32(entries, ptr + 4),
                            flags: read_le_u16(entries, ptr + 8),
                        },
                    );
                },
                5 => {
                    if left < 12 {
                        return Err(VfsError::Corrupt);
                    }
                    lapic_ptr = match to_higher_half(read_le_u64(entries, ptr + 4), hhdm_offset) {
                        Some(address) => address,
                        None => {
                            return Err(VfsError::Corrupt);
                        },
                    };
                },
                _ => {},
            }
            let length = entries[ptr + 1] as usize;
            if length > entries.len() - ptr {
                ptr = entries.len();
            } else {
                ptr = ptr + length;
            }
        }
        match (io_apic, io_apic_source_override) {
            (Some(io_apic), Some(_)) => Ok(APIC { io_apic, local_apic: lapic_ptr, cpus }),
            _ => Err(VfsError::NotFound),
        }
    }

    /// What enables the local APIC, where its spurious interrupt register
    /// holds `current`: the register with bit 8 set.
    pub fn enable_write(current: u32) -> (r: RegisterWrite)
        ensures
            r == (RegisterWrite { reg: 0xF0, value: current | 0x100 }),
    {
        RegisterWrite { reg: 0xF0, value: current | 0x100 }
    }

    /// The number of inputs of the I/O APIC, going by its version register.
    pub fn number_of_inputs(io_apic_ver: u32) -> (r: u32)
        ensures
            r == ((io_apic_ver >> 16) & 0xFF) + 1,
    {
        let inputs = (io_apic_ver >> 16) & 0xFF;
        assert(inputs <= 0xFF) by (bit_vector)
            requires
                inputs == (io_apic_ver >> 16) & 0xFF,
        ;
        inputs + 1
    }

    /// What sends the interrupt `vec` to the processor `dest_id`: the
    /// destination in the high register of the interrupt command, then the
    /// vector in the low one.
    pub fn lapic_send_ipi(&self, dest_id: u32, vec: u32) -> (r: [RegisterWrite; 2])
        ensures
            r[0] == (RegisterWrite { reg: 0x310, value: dest_id << 24 }),
            r[1] == (RegisterWrite { reg: 0x300, value: vec }),
    {
        [
            RegisterWrite { reg: 0x310, value: dest_id << 24 },
            RegisterWrite { reg: 0x300, value: vec },
        ]
    }

    /// The register of the I/O APIC that routes the interrupt `int_num`.
    pub fn redirection_register(int_num: u8) -> (r: u32)
        ensures
            r == 0x10 + int_num * 2,
    {
        0x10 + (int_num as u32 * 2)
    }

    /// What routes the interrupt `int_num` to the vector `0x20 +
    /// redirtion_num`, where the routing register holds `current`: bits 8
    /// to 14 of the register stay, and the vector goes into the low byte.
    pub fn set_interrupt(&self, int_num: u8, redirtion_num: u8, current: u32) -> (r: RegisterWrite)
        ensures
            r.reg == 0x10 + int_num * 2,
            r.value == ((current & 0x7FFF) & 0xFF00) | ((0x20 + redirtion_num) as u32),
    {
        let retbl_offset: u32 = Self::redirection_register(int_num);
        let interrupts_vt = ((current & 0x7FFF) & 0xFF00) | (0x20 + redirtion_num as u32);

        RegisterWrite { reg: retbl_offset, value: interrupts_vt }
    }

    /// What tells the local APIC that an interrupt has been dealt with.
    pub fn end_of_interrupt(&self) -> (r: RegisterWrite)
        ensures
            r == (RegisterWrite { reg: 0xB0, value: 0 }),
    {
        RegisterWrite { reg: 0xB0, value: 0x00 }
    }
}

pub const PIC_CMD_MASTER: u16 = 0x20;

pub const PIC_CMD_SLAVE: u16 = 0xA0;

pub const PIC_DATA_MASTER: u16 = 0x21;

pub const PIC_DATA_SLAVE: u16 = 0xA1;

/// A byte to write to an I/O port.
#[derive(Clone, Copy, Debug, PartialEq, Eq, Structural)]
pub struct PortWrite {
    pub port: u16,
    pub value: u8,
}

/// What silences the two legacy interrupt controllers: both are told that
/// they are being set up, given their vector offsets (0x20 and 0x28), told
/// how they are chained, put in 8086 mode, and then have all their
/// interrupts masked.
pub open spec fn pic_shutdown() -> Seq<PortWrite> {
    seq![
        PortWrite { port: PIC_CMD_MASTER, value: 0x11 },
        PortWrite { port: PIC_CMD_SLAVE, value: 0x11 },
        PortWrite { port: PIC_DATA_MASTER, value: 0x20 },
        PortWrite { port: PIC_DATA_SLAVE, value: 0x28 },
        PortWrite { port: PIC_DATA_MASTER, value: 0x04 },
        PortWrite { port: PIC_DATA_SLAVE, value: 0x02 },
        PortWrite { port: PIC_DATA_MASTER, value: 0x01 },
        PortWrite { port: PIC_DATA_SLAVE, value: 0x01 },
        PortWrite { port: PIC_DATA_MASTER, value: 0xFF },
        PortWrite { port: PIC_DATA_SLAVE, value: 0xFF },
    ]
}

/// The port writes that silence the legacy interrupt controllers, in
/// order; see [`pic_shutdown`].
pub fn disable_pic() -> (r: Vec<PortWrite>)
    ensures
        r@ == pic_shutdown(),
{
    let mut writes: Vec<PortWrite> = Vec::new();
    // Tell each PIC we're going to initialize it.
    writes.push(PortWrite { port: PIC_CMD_MASTER, value: 0x11 });
    writes.push(PortWrite { port: PIC_CMD_SLAVE, value: 0x11 });

    // Byte 1: Set up our base offsets.
    writes.push(PortWrite { port: PIC_DATA_MASTER, value: 0x20 });
    writes.push(PortWrite { port: PIC_DATA_SLAVE, value: 0x28 });

    // Byte 2: Configure chaining
    writes.push(PortWrite { port: PIC_DATA_MASTER, value: 0x04 });
    writes.push(PortWrite { port: PIC_DATA_SLAVE, value: 0x02 });

    // Byte 3: Set out mode to 8086.
    writes.push(PortWrite { port: PIC_DATA_MASTER, value: 0x01 });
    writes.push(PortWrite { port: PIC_DATA_SLAVE, value: 0x01 });

    // Set each PIC's mask to 0xFF, disabling PIC interrupts
    writes.push(PortWrite { port: PIC_DATA_MASTER, value: 0xFF });
    writes.push(PortWrite { port: PIC_DATA_SLAVE, value: 0xFF });
    assert(writes@ =~= pic_shutdown());
    writes
}

} // verus!
