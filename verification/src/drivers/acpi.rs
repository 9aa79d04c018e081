//! The firmware's tables: their headers, the root table, and the few
//! fields of the fixed description table that the kernel needs.

use crate::arch::x86_64::interrupts::apic::PortWrite;
use crate::drivers::fs::vfs::VfsError;
use crate::libs::bytes::{bytes_eq, copy_of};
use crate::libs::endian::{le_u16, le_u32, le_u64, read_le_u16, read_le_u32, read_le_u64};
use vstd::prelude::*;
use vstd::slice::slice_subrange;

verus! {

/// Length of the header that every table begins with.
pub const SDT_HEADER_SIZE: usize = 36;

/// The header that every table begins with.
#[derive(Debug)]
pub struct SDTHeader {
    pub signature: Vec<u8>,
    pub length: u32,
    pub revision: u8,
    pub checksum: u8,
    pub oemid: Vec<u8>,
    pub oem_table_id: Vec<u8>,
    pub oem_revision: u32,
    pub creator_id: u32,
    pub creator_revision: u32,
}

/// What a table header holds.
pub struct SDTHeaderView {
    pub signature: Seq<u8>,
    pub length: u32,
    pub revision: u8,
    pub checksum: u8,
    pub oemid: Seq<u8>,
    pub oem_table_id: Seq<u8>,
    pub oem_revision: u32,
    pub creator_id: u32,
    pub creator_revision: u32,
}

impl View for SDTHeader {
    type V = SDTHeaderView;

    open spec fn view(&self) -> SDTHeaderView {
        SDTHeaderView {
            signature: self.signature@,
            length: self.length,
            revision: self.revision,
            checksum: self.checksum,
            oemid: self.oemid@,
            oem_table_id: self.oem_table_id@,
            oem_revision: self.oem_revision,
            creator_id: self.creator_id,
            creator_revision: self.creator_revision,
        }
    }
}

impl SDTHeader {
    /// The header that `bytes` begins with: the signature in 4 bytes, the
    /// length of the table at 4, revision and checksum at 8 and 9, the
    /// names of the vendor and of the table in 6 and 8 bytes from 10 on,
    /// and three numbers of the vendor from 24 on. `None` where `bytes` is
    /// shorter than a header.
    pub open spec fn parse(bytes: Seq<u8>) -> Option<SDTHeaderView> {
        if bytes.len() < 36 {
            None
        } else {
            Some(
                SDTHeaderView {
                    signature: bytes.subrange(0, 4),
                    length: le_u32(bytes, 4),
                    revision: bytes[8],
                    checksum: bytes[9],
                    oemid: bytes.subrange(10, 16),
                    oem_table_id: bytes.subrange(16, 24),
                    oem_revision: le_u32(bytes, 24),
                    creator_id: le_u32(bytes, 28),
                    creator_revision: le_u32(bytes, 32),
                },
            )
        }
    }

    /// Decodes a table header; `Corrupt` where [`Self::parse`] finds none.
    pub fn from_bytes(bytes: &[u8]) -> (r: Result<Self, VfsError>)
        ensures
            match r {
                Ok(h) => Self::parse(bytes@) == Some(h@),
                Err(e) => e == VfsError::Corrupt && Self::parse(bytes@) is None,
            },
    {
        if bytes.len() < SDT_HEADER_SIZE {
            return Err(VfsError::Corrupt);
        }
        Ok(
            SDTHeader {
                signature: copy_of(bytes, 0, 4),
                length: read_le_u32(bytes, 4),
                revision: bytes[8],
                checksum: bytes[9],
                oemid: copy_of(bytes, 10, 16),
                oem_table_id: copy_of(bytes, 16, 24),
                oem_revision: read_le_u32(bytes, 24),
                creator_id: read_le_u32(bytes, 28),
                creator_revision: read_le_u32(bytes, 32),
            },
        )
    }
}

/// A table: its header, its fixed part, and what follows the fixed part.
#[derive(Debug)]
pub struct SDT {
    pub header: SDTHeader,
    pub inner: Vec<u8>,
    pub extra: Option<Vec<u8>>,
}

impl SDT {
    /// Takes apart the table `data`, whose fixed part is `inner_size` bytes
    /// long.
    ///
    /// `Corrupt` where `data` is not as long as its header says, or too
    /// short for the header and the fixed part.
    pub fn new(data: &[u8], inner_size: usize) -> (r: Result<Self, VfsError>)
        ensures
            match r {
                Ok(sdt) => {
                    &&& SDTHeader::parse(data@) == Some(sdt.header@)
                    &&& sdt.header.length == data@.len()
                    &&& 36 + inner_size <= data@.len()
                    &&& sdt.inner@ == data@.subrange(36, 36 + inner_size)
                    &&& match sdt.extra {
                        Some(extra) => data@.len() > 36 + inner_size && extra@ == data@.subrange(
                            36 + inner_size,
                            data@.len() as int,
                        ),
                        None => data@.len() == 36 + inner_size,
                    }
                },
                Err(e) => e == VfsError::Corrupt && (data@.len() < 36 || le_u32(data@, 4)
                    != data@.len() || 36 + inner_size > data@.len()),
            },
    {
        let header = SDTHeader::from_bytes(data)?;
        if header.length as u64 != data.len() as u64 {
            return Err(VfsError::Corrupt);
        }
        if inner_size > data.len() - SDT_HEADER_SIZE {
            return Err(VfsError::Corrupt);
        }
        let fixed_end = SDT_HEADER_SIZE + inner_size;
        let inner = copy_of(data, SDT_HEADER_SIZE, fixed_end);
        let mut extra = None;

        if data.len() > fixed_end {
            extra = Some(copy_of(data, fixed_end, data.len()));
        }
        Ok(SDT { header, inner, extra })
    }
}

/// Where the root table lies, and which kind it is.
#[derive(Clone, Copy, Debug, PartialEq, Eq, Structural)]
pub enum RootPointer {
    /// A root table of 32-bit pointers.
    Rsdt(u32),
    /// A root table of 64-bit pointers.
    Xsdt(u64),
}

/// What the root pointer structure `bytes` says: in revision 0 the root
/// table is the one of 32-bit pointers at the address at offset 16, else
/// the one of 64-bit pointers at the address at offset 24. `None` where the
/// structure is cut short.
pub open spec fn spec_root_pointer(bytes: Seq<u8>) -> Option<RootPointer> {
    if bytes.len() < 20 {
        None
    } else if bytes[15] == 0 {
        Some(RootPointer::Rsdt(le_u32(bytes, 16)))
    } else if bytes.len() < 36 {
        None
    } else {
        Some(RootPointer::Xsdt(le_u64(bytes, 24)))
    }
}

/// Reads the root pointer structure; see [`spec_root_pointer`].
pub fn root_pointer(bytes: &[u8]) -> (r: Option<RootPointer>)
    ensures
        r == spec_root_pointer(bytes@),
{
    if bytes.len() < 20 {
        None
    } else if bytes[15] == 0 {
        Some(RootPointer::Rsdt(read_le_u32(bytes, 16)))
    } else if bytes.len() < 36 {
        None
    } else {
        Some(RootPointer::Xsdt(read_le_u64(bytes, 24)))
    }
}

/// The root table.
#[derive(Debug)]
pub enum RootSDT {
    RSDT(SDT),
    XSDT(SDT),
}

impl RootSDT {
    /// The root table as a table.
    pub open spec fn table(&self) -> SDT {
        match self {
            RootSDT::RSDT(rsdt) => *rsdt,
            RootSDT::XSDT(xsdt) => *xsdt,
        }
    }

    /// The physical address of the table that the pointer `idx` of the
    /// root table points to: the pointers follow the header, 4 bytes each
    /// in a root table of 32-bit pointers and 8 bytes each in one of 64-bit
    /// pointers. `None` where the root table has no such pointer.
    pub open spec fn pointer(&self, idx: usize) -> Option<u64> {
        match self.table().extra {
            Some(pointers) => if self is RSDT {
                if 4 * idx + 4 <= pointers@.len() {
                    Some(le_u32(pointers@, 4 * idx) as u64)
                } else {
                    None
                }
            } else {
                if 8 * idx + 8 <= pointers@.len() {
                    Some(le_u64(pointers@, 8 * idx))
                } else {
                    None
                }
            },
            None => None,
        }
    }

    /// Reads the pointer `idx` of the root table; see [`Self::pointer`].
    pub fn get(&self, idx: usize) -> (r: Option<u64>)
        ensures
            r == self.pointer(idx),
    {
        match self {
            RootSDT::RSDT(rsdt) => match &rsdt.extra {
                Some(pointers) => {
                    if idx as u128 * 4 + 4 <= pointers.len() as u128 {
                        Some(read_le_u32(pointers.as_slice(), 4 * idx) as u64)
                    } else {
                        None
                    }
                },
                None => None,
            },
            RootSDT::XSDT(xsdt) => match &xsdt.extra {
                Some(pointers) => {
                    if idx as u128 * 8 + 8 <= pointers.len() as u128 {
                        Some(read_le_u64(pointers.as_slice(), 8 * idx))
                    } else {
                        None
                    }
                },
                None => None,
            },
        }
    }

    /// The header of the root table.
    pub fn header(&self) -> (r: &SDTHeader)
        ensures
            *r == self.table().header,
    {
        match self {
            RootSDT::RSDT(rsdt) => &rsdt.header,
            RootSDT::XSDT(xsdt) => &xsdt.header,
        }
    }

    /// How many tables the root table points to: what follows its header,
    /// counted in pointers of 4 or of 8 bytes. A root table that is
    /// shorter than a header points to none.
    pub fn len(&self) -> (r: usize)
        ensures
            r == if self.table().header.length < 36 {
                0
            } else if self is RSDT {
                (self.table().header.length - 36) / 4
            } else {
                (self.table().header.length - 36) / 8
            },
    {
        let ptr_size: usize = match self {
            RootSDT::RSDT(_) => 4,
            RootSDT::XSDT(_) => 8,
        };
        let length = self.header().length as usize;
        if length < SDT_HEADER_SIZE {
            return 0;
        }
        (length - SDT_HEADER_SIZE) / ptr_size
    }
}

/// The firmware's tables: the root table, and the signatures of the tables
/// it points to, in order.
#[derive(Debug)]
pub struct ACPI {
    pub root_sdt: RootSDT,
    pub tables: Vec<Vec<u8>>,
}

/// The place of the first table with the signature `name` among the
/// signatures `tables`, looking from `i` on.
pub open spec fn table_index(tables: Seq<Vec<u8>>, name: Seq<u8>, i: int) -> Option<int>
    decreases tables.len() - i,
{
    if i < 0 || i >= tables.len() {
        None
    } else if tables[i]@ == name {
        Some(i)
    } else {
        table_index(tables, name, i + 1)
    }
}

impl ACPI {
    /// The place of the first table with the signature `table_name`; see
    /// [`table_index`].
    pub fn find_table(&self, table_name: &[u8]) -> (r: Option<usize>)
        ensures
            match r {
                Some(i) => table_index(self.tables@, table_name@, 0) == Some(i as int),
                None => table_index(self.tables@, table_name@, 0) is None,
            },
    {
        let mut i: usize = 0;
        while i < self.tables.len()
            invariant
                i <= self.tables.len(),
                table_index(self.tables@, table_name@, 0) == table_index(
                    self.tables@,
                    table_name@,
                    i as int,
                ),
            decreases self.tables.len() - i,
        {
            if bytes_eq(self.tables[i].as_slice(), table_name) {
                return Some(i);
            }
            i += 1;
        }
        None
    }
}

/// The fields of the fixed description table that lie in its first 36
/// bytes.
#[derive(Clone, Copy, Debug, PartialEq, Eq, Structural)]
pub struct FADT {
    pub firmware_ctrl: u32,
    pub dsdt: u32,
    pub preferred_power_management_profile: u8,
    pub sci_interrupt: u16,
    pub smi_cmd_port: u32,
    pub acpi_enable: u8,
    pub acpi_disable: u8,
    pub s4biox_req: u8,
    pub pstate_control: u8,
    pub pm1a_event_block: u32,
    pub pm1b_event_block: u32,
    pub pm1a_control_block: u32,
    pub pm1b_control_block: u32,
}

impl FADT {
    /// The fields as they lie in the fixed part `bytes` of the table; `None`
    /// where that is shorter than 36 bytes.
    pub open spec fn parse(bytes: Seq<u8>) -> Option<Self> {
        if bytes.len() < 36 {
            None
        } else {
            Some(
                FADT {
                    firmware_ctrl: le_u32(bytes, 0),
                    dsdt: le_u32(bytes, 4),
                    preferred_power_management_profile: bytes[9],
                    sci_interrupt: le_u16(bytes, 10),
                    smi_cmd_port: le_u32(bytes, 12),
                    acpi_enable: bytes[16],
                    acpi_disable: bytes[17],
                    s4biox_req: bytes[18],
                    pstate_control: bytes[19],
                    pm1a_event_block: le_u32(bytes, 20),
                    pm1b_event_block: le_u32(bytes, 24),
                    pm1a_control_block: le_u32(bytes, 28),
                    pm1b_control_block: le_u32(bytes, 32),
                },
            )
        }
    }

    /// Decodes the fixed part of the table; see [`Self::parse`].
    pub fn from_bytes(bytes: &[u8]) -> (r: Option<Self>)
        ensures
            r == Self::parse(bytes@),
    {
        if bytes.len() < 36 {
            return None;
        }
        Some(
            FADT {
                firmware_ctrl: read_le_u32(bytes, 0),
                dsdt: read_le_u32(bytes, 4),
                preferred_power_management_profile: bytes[9],
                sci_interrupt: read_le_u16(bytes, 10),
                smi_cmd_port: read_le_u32(bytes, 12),
                acpi_enable: bytes[16],
                acpi_disable: bytes[17],
                s4biox_req: bytes[18],
                pstate_control: bytes[19],
                pm1a_event_block: read_le_u32(bytes, 20),
                pm1b_event_block: read_le_u32(bytes, 24),
                pm1a_control_block: read_le_u32(bytes, 28),
                pm1b_control_block: read_le_u32(bytes, 32),
            },
        )
    }

    /// What asks the firmware to hand power management over: the enable
    /// value, written to the command port. Of the port only the low 16 bits
    /// count.
    pub fn init_acpi(&self) -> (r: PortWrite)
        ensures
            r == (PortWrite {
                port: (self.smi_cmd_port % 0x1_0000) as u16,
                value: self.acpi_enable,
            }),
    {
        PortWrite { port: (self.smi_cmd_port % 0x1_0000) as u16, value: self.acpi_enable }
    }

    /// The port at which to see whether the firmware has handed over.
    pub fn control_port(&self) -> (r: u16)
        ensures
            r == self.pm1a_control_block % 0x1_0000,
    {
        (self.pm1a_control_block % 0x1_0000) as u16
    }

    /// Whether the firmware has handed over, going by what the control
    /// port reads.
    pub fn enabled(control: u16) -> (r: bool)
        ensures
            r == (control & 1 != 0),
    {
        control & 1 != 0
    }
}

} // verus!
