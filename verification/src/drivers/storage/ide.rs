//! The ATA disks on the legacy IDE ports: what to write to the ports of a
//! bus, and what to make of what they read.

use crate::arch::x86_64::interrupts::apic::PortWrite;
use crate::drivers::fs::vfs::VfsError;
use vstd::prelude::*;

verus! {

/// The size of a sector in bytes.
pub const ATA_SECTOR_SIZE: usize = 512;

/// The bits of the status register.
#[derive(Clone, Copy, Debug, PartialEq, Eq, Structural)]
pub enum ATADriveStatus {
    Error,
    Index,
    Corrupt,
    DataReqReady,
    DriveSeekDone,
    WriteFault,
    Ready,
    Busy,
    NotPresent,
}

impl ATADriveStatus {
    /// The bits of the status register that the status stands for.
    pub open spec fn mask(self) -> u8 {
        match self {
            ATADriveStatus::Error => 0x01,
            ATADriveStatus::Index => 0x02,
            ATADriveStatus::Corrupt => 0x04,
            ATADriveStatus::DataReqReady => 0x08,
            ATADriveStatus::DriveSeekDone => 0x10,
            ATADriveStatus::WriteFault => 0x20,
            ATADriveStatus::Ready => 0x40,
            ATADriveStatus::Busy => 0x80,
            ATADriveStatus::NotPresent => 0xFF,
        }
    }

    /// The bits of the status register that the status stands for.
    pub fn bits(self) -> (r: u8)
        ensures
            r == self.mask(),
    {
        match self {
            ATADriveStatus::Error => 0x01,
            ATADriveStatus::Index => 0x02,
            ATADriveStatus::Corrupt => 0x04,
            ATADriveStatus::DataReqReady => 0x08,
            ATADriveStatus::DriveSeekDone => 0x10,
            ATADriveStatus::WriteFault => 0x20,
            ATADriveStatus::Ready => 0x40,
            ATADriveStatus::Busy => 0x80,
            ATADriveStatus::NotPresent => 0xFF,
        }
    }

    /// The status that the value `value` of the status register stands
    /// for, where it has exactly one bit set; else the drive is not there.
    pub open spec fn of_value(value: u8) -> Self {
        if value == 0x01 {
            ATADriveStatus::Error
        } else if value == 0x02 {
            ATADriveStatus::Index
        } else if value == 0x04 {
            ATADriveStatus::Corrupt
        } else if value == 0x08 {
            ATADriveStatus::DataReqReady
        } else if value == 0x10 {
            ATADriveStatus::DriveSeekDone
        } else if value == 0x20 {
            ATADriveStatus::WriteFault
        } else if value == 0x40 {
            ATADriveStatus::Ready
        } else if value == 0x80 {
            ATADriveStatus::Busy
        } else {
            ATADriveStatus::NotPresent
        }
    }

    /// The status that the value `value` of the status register stands
    /// for; see [`Self::of_value`].
    pub fn from(value: u8) -> (r: Self)
        ensures
            r == Self::of_value(value),
    {
        match value {
            0x01 => Self::Error,
            0x02 => Self::Index,
            0x04 => Self::Corrupt,
            0x08 => Self::DataReqReady,
            0x10 => Self::DriveSeekDone,
            0x20 => Self::WriteFault,
            0x40 => Self::Ready,
            0x80 => Self::Busy,
            _ => Self::NotPresent,
        }
    }

    /// Whether the value `status` of the status register has one of the
    /// bits of this status set.
    pub fn is_set_in(self, status: u8) -> (r: bool)
        ensures
            r == (status & self.mask() != 0),
    {
        status & self.bits() != 0
    }
}

/// The commands of a drive.
#[derive(Clone, Copy, Debug, PartialEq, Eq, Structural)]
pub enum ATADriveCommand {
    ReadPIO,
    ReadPIOExt,
    ReadDMA,
    ReadDMAExt,
    WritePIO,
    WritePIOExt,
    WriteDMA,
    WriteDMAExt,
    CacheFlush,
    CacheFlushExt,
    Packet,
    IdentifyPacket,
    Identify,
}

impl ATADriveCommand {
    /// The byte that stands for the command.
    pub open spec fn code(self) -> u8 {
        match self {
            ATADriveCommand::ReadPIO => 0x20,
            ATADriveCommand::ReadPIOExt => 0x24,
            ATADriveCommand::ReadDMA => 0xC8,
            ATADriveCommand::ReadDMAExt => 0x25,
            ATADriveCommand::WritePIO => 0x30,
            ATADriveCommand::WritePIOExt => 0x34,
            ATADriveCommand::WriteDMA => 0xCA,
            ATADriveCommand::WriteDMAExt => 0x35,
            ATADriveCommand::CacheFlush => 0xE7,
            ATADriveCommand::CacheFlushExt => 0xEA,
            ATADriveCommand::Packet => 0xA0,
            ATADriveCommand::IdentifyPacket => 0xA1,
            ATADriveCommand::Identify => 0xEC,
        }
    }

    /// The byte that stands for the command.
    pub fn as_u8(self) -> (r: u8)
        ensures
            r == self.code(),
    {
        match self {
            ATADriveCommand::ReadPIO => 0x20,
            ATADriveCommand::ReadPIOExt => 0x24,
            ATADriveCommand::ReadDMA => 0xC8,
            ATADriveCommand::ReadDMAExt => 0x25,
            ATADriveCommand::WritePIO => 0x30,
            ATADriveCommand::WritePIOExt => 0x34,
            ATADriveCommand::WriteDMA => 0xCA,
            ATADriveCommand::WriteDMAExt => 0x35,
            ATADriveCommand::CacheFlush => 0xE7,
            ATADriveCommand::CacheFlushExt => 0xEA,
            ATADriveCommand::Packet => 0xA0,
            ATADriveCommand::IdentifyPacket => 0xA1,
            ATADriveCommand::Identify => 0xEC,
        }
    }
}

/// The kinds of drive.
#[derive(Clone, Copy, Debug, PartialEq, Eq, Structural)]
pub enum IDEDriveType {
    Pata,
    PataPi,
    Sata,
    SataPi,
}

impl IDEDriveType {
    /// The kind of drive, going by what the two high address registers read
    /// after the drive has been asked to identify itself.
    pub fn from_lba(lba_mid: u8, lba_high: u8) -> (r: Option<IDEDriveType>)
        ensures
            r == if lba_mid == 0x00 && lba_high == 0x00 {
                Some(IDEDriveType::Pata)
            } else if lba_mid == 0x14 && lba_high == 0xEB {
                Some(IDEDriveType::PataPi)
            } else if lba_mid == 0x3C && lba_high == 0xC3 {
                Some(IDEDriveType::Sata)
            } else if lba_mid == 0x69 && lba_high == 0x96 {
                Some(IDEDriveType::SataPi)
            } else {
                None
            },
    {
        match (lba_mid, lba_high) {
            (0x00, 0x00) => Some(IDEDriveType::Pata),
            (0x14, 0xEB) => Some(IDEDriveType::PataPi),
            (0x3C, 0xC3) => Some(IDEDriveType::Sata),
            (0x69, 0x96) => Some(IDEDriveType::SataPi),
            _ => None,
        }
    }
}

/// Which of the two drives of a bus.
#[derive(Clone, Copy, Debug, PartialEq, Eq, Structural)]
pub enum ATADriveType {
    Parent,
    Child,
}

impl ATADriveType {
    /// The bit that selects the drive.
    pub open spec fn select_bit(self) -> u8 {
        match self {
            ATADriveType::Parent => 0x00,
            ATADriveType::Child => 0x10,
        }
    }

    /// The bit that selects the drive.
    pub fn as_u8(self) -> (r: u8)
        ensures
            r == self.select_bit(),
    {
        match self {
            ATADriveType::Parent => 0x00,
            ATADriveType::Child => 0x10,
        }
    }
}

/// Which way a transfer goes.
#[derive(Clone, Copy, Debug, PartialEq, Eq, Structural)]
pub enum ATADriveDirection {
    Read,
    Write,
}

pub const REG_DATA: u16 = 0x00;

pub const REG_SECTOR_COUNT0: u16 = 0x02;

pub const REG_LBA0: u16 = 0x03;

pub const REG_LBA1: u16 = 0x04;

pub const REG_LBA2: u16 = 0x05;

pub const REG_DEVICE_SELECT: u16 = 0x06;

pub const REG_COMMAND_AND_STATUS: u16 = 0x07;

pub const REG_CONTROL_AND_ALT_STATUS: u16 = 0x02;

/// The ports of the first bus, as [`ide_initialize`] takes them.
pub fn init() -> (r: ATABus)
    ensures
        r == (ATABus { io_bar: 0x1F0, control_bar: 0x3F4 }),
{
    assert(0x1F0u16 & 0xFFFC == 0x1F0 && 0x3F6u16 & 0xFFFC == 0x3F4) by (bit_vector);
    ide_initialize(0x1F0, 0x3F6)
}

/// The bus at the ports `bar0` and `bar1`, of which the low 16 bits count.
pub fn ide_initialize(bar0: u32, bar1: u32) -> (r: ATABus)
    ensures
        r == ATABus::spec_new((bar0 % 0x1_0000) as u16, (bar1 % 0x1_0000) as u16),
{
    let io_port_base = (bar0 % 0x1_0000) as u16;
    let control_port_base = (bar1 % 0x1_0000) as u16;

    ATABus::new(io_port_base, control_port_base)
}

/// What to do after a look at the status register while waiting for data.
#[derive(Clone, Copy, Debug, PartialEq, Eq, Structural)]
pub enum DriveWait {
    /// The drive reports an error or a write fault.
    Failed,
    /// The drive is busy, or not yet ready for data: look again.
    Again,
    /// The drive is ready for data.
    Ready,
}

/// What to do after a look at the answer to a request to identify.
#[derive(Clone, Copy, Debug, PartialEq, Eq, Structural)]
pub enum IdentifyCheck {
    /// There is no drive, or none of a kind that is supported.
    Absent,
    /// The drive is busy: look again.
    Again,
    /// The drive has answered: wait for the data and read it.
    Proceed,
}

/// A bus: the ports of its registers.
#[derive(Clone, Copy, Debug, PartialEq, Eq, Structural)]
pub struct ATABus {
    pub io_bar: u16,
    pub control_bar: u16,
}

/// The value that selects the drive and the addressing mode of a transfer
/// of the sectors from `sector` on, and the bytes of the two halves of the
/// sector and of the sector count, where the transfer needs 48 bits.
pub open spec fn uses_lba48(sector: u64) -> bool {
    sector >= 0x0FFF_FFFF
}

/// Byte `k` of the sector number `sector`, counted from the least
/// significant.
pub open spec fn sector_byte(sector: u64, k: int) -> u8 {
    if k == 0 {
        (sector % 0x100) as u8
    } else if k == 1 {
        (sector / 0x100 % 0x100) as u8
    } else if k == 2 {
        (sector / 0x1_0000 % 0x100) as u8
    } else if k == 3 {
        (sector / 0x100_0000 % 0x100) as u8
    } else if k == 4 {
        (sector / 0x1_0000_0000 % 0x100) as u8
    } else {
        (sector / 0x100_0000_0000 % 0x100) as u8
    }
}

impl ATABus {
    /// The bus at the ports `io_bar` and `control_bar`, of which the two
    /// lowest bits do not count.
    pub open spec fn spec_new(io_bar: u16, control_bar: u16) -> Self {
        ATABus { io_bar: io_bar & 0xFFFC, control_bar: control_bar & 0xFFFC }
    }

    /// The bus at the ports `io_bar` and `control_bar`.
    pub fn new(io_bar: u16, control_bar: u16) -> (r: Self)
        ensures
            r == Self::spec_new(io_bar, control_bar),
    {
        let io_bar = io_bar & 0xFFFC;
        let control_bar = control_bar & 0xFFFC;

        Self { io_bar, control_bar }
    }

    /// The port of the register `register` of the bus.
    pub open spec fn port(&self, register: u16) -> u16 {
        ((self.io_bar + register) % 0x1_0000) as u16
    }

    /// The port of the register `register` of the bus.
    pub fn io_port(&self, register: u16) -> (r: u16)
        ensures
            r == self.port(register),
    {
        ((self.io_bar as u32 + register as u32) % 0x1_0000) as u16
    }

    /// What selects the drive `drive`.
    pub fn select(&self, drive: u8) -> (r: PortWrite)
        ensures
            r == (PortWrite { port: self.port(REG_DEVICE_SELECT), value: drive }),
    {
        PortWrite { port: self.io_port(REG_DEVICE_SELECT), value: drive }
    }

    /// What sends the command `command`.
    pub fn send_command(&self, command: ATADriveCommand) -> (r: PortWrite)
        ensures
            r == (PortWrite { port: self.port(REG_COMMAND_AND_STATUS), value: command.code() }),
    {
        PortWrite { port: self.io_port(REG_COMMAND_AND_STATUS), value: command.as_u8() }
    }

    /// The port that the status is read from, after the alternate status
    /// port has been read four times to let the drive settle.
    pub fn status(&self) -> (r: u16)
        ensures
            r == self.port(REG_COMMAND_AND_STATUS),
    {
        self.io_port(REG_COMMAND_AND_STATUS)
    }

    /// The port of the alternate status.
    pub fn alt_status_port(&self) -> (r: u16)
        ensures
            r == ((self.control_bar + REG_CONTROL_AND_ALT_STATUS) % 0x1_0000) as u16,
    {
        ((self.control_bar as u32 + REG_CONTROL_AND_ALT_STATUS as u32) % 0x1_0000) as u16
    }

    /// What to do after a look at the status `status` while waiting for
    /// data.
    pub fn wait_for_drive_ready(status: u8) -> (r: DriveWait)
        ensures
            r == if status & 0x01 != 0 || status & 0x20 != 0 {
                DriveWait::Failed
            } else if status & 0x80 != 0 {
                DriveWait::Again
            } else if status & 0x08 != 0 {
                DriveWait::Ready
            } else {
                DriveWait::Again
            },
    {
        if ATADriveStatus::Error.is_set_in(status) || ATADriveStatus::WriteFault.is_set_in(status) {
            return DriveWait::Failed;
        }
        if ATADriveStatus::Busy.is_set_in(status) {
            return DriveWait::Again;
        }
        if ATADriveStatus::DataReqReady.is_set_in(status) {
            return DriveWait::Ready;
        }
        DriveWait::Again
    }

    /// Whether the bus is busy, going by the status `status`.
    pub fn await_busy(status: u8) -> (r: bool)
        ensures
            r == (status & 0x80 != 0),
    {
        ATADriveStatus::Busy.is_set_in(status)
    }

    /// What asks the drive `drive` to identify itself: the drive is
    /// selected, the sector count and the address are set to zero,
    /// interrupts are switched off, and the command is sent.
    pub fn identify(&self, drive: ATADriveType) -> (r: Vec<PortWrite>)
        ensures
            r@ == seq![
                PortWrite { port: self.port(REG_DEVICE_SELECT), value: 0xA0 | drive.select_bit() },
                PortWrite { port: self.port(REG_SECTOR_COUNT0), value: 0 },
                PortWrite { port: self.port(REG_LBA0), value: 0 },
                PortWrite { port: self.port(REG_LBA1), value: 0 },
                PortWrite { port: self.port(REG_LBA2), value: 0 },
                PortWrite { port: ((self.control_bar + 2) % 0x1_0000) as u16, value: 2 },
                PortWrite { port: self.port(REG_COMMAND_AND_STATUS), value: 0xEC },
            ],
    {
        let mut writes: Vec<PortWrite> = Vec::new();
        writes.push(self.select(0xA0 | drive.as_u8()));
        writes.push(PortWrite { port: self.io_port(REG_SECTOR_COUNT0), value: 0 });
        writes.push(PortWrite { port: self.io_port(REG_LBA0), value: 0 });
        writes.push(PortWrite { port: self.io_port(REG_LBA1), value: 0 });
        writes.push(PortWrite { port: self.io_port(REG_LBA2), value: 0 });
        // disable interrupts by setting bit 2 in the control port
        writes.push(PortWrite { port: self.alt_status_port(), value: 2 });
        writes.push(self.send_command(ATADriveCommand::Identify));
        assert(writes@ =~= seq![
            PortWrite { port: self.port(REG_DEVICE_SELECT), value: 0xA0 | drive.select_bit() },
            PortWrite { port: self.port(REG_SECTOR_COUNT0), value: 0 },
            PortWrite { port: self.port(REG_LBA0), value: 0 },
            PortWrite { port: self.port(REG_LBA1), value: 0 },
            PortWrite { port: self.port(REG_LBA2), value: 0 },
            PortWrite { port: ((self.control_bar + 2) % 0x1_0000) as u16, value: 2 },
            PortWrite { port: self.port(REG_COMMAND_AND_STATUS), value: 0xEC },
        ]);
        writes
    }

    /// What to make of the answer to a request to identify, where the
    /// status reads `status` and the two high address registers read
    /// `lba_mid` and `lba_high`, and `first` holds for the first look.
    ///
    /// A status of zero at the first look means that there is no drive.
    /// While the drive is busy, address registers that are not zero mean
    /// that the drive is not an ATA drive. When the drive is no longer
    /// busy, the address registers have to name a parallel ATA drive.
    pub fn identify_check(first: bool, status: u8, lba_mid: u8, lba_high: u8) -> (r: IdentifyCheck)
        ensures
            r == if first && status == 0 {
                IdentifyCheck::Absent
            } else if status & 0x80 != 0 {
                if lba_mid != 0 || lba_high != 0 {
                    IdentifyCheck::Absent
                } else {
                    IdentifyCheck::Again
                }
            } else if lba_mid == 0 && lba_high == 0 {
                IdentifyCheck::Proceed
            } else {
                IdentifyCheck::Absent
            },
    {
        if first && status == 0x00 {
            // drive did not respond to identify command
            // therefore, the drive is not present
            return IdentifyCheck::Absent;
        }
        if ATADriveStatus::Busy.is_set_in(status) {
            if lba_mid != 0 || lba_high != 0 {
                return IdentifyCheck::Absent;
            }
            return IdentifyCheck::Again;
        }
        match IDEDriveType::from_lba(lba_mid, lba_high) {
            Some(IDEDriveType::Pata) => {
                // The only kind of drive that is supported.
                IdentifyCheck::Proceed
            },
            _ => IdentifyCheck::Absent,
        }
    }

    /// How many bytes a transfer of `sector_count` sectors moves; `None`
    /// where that is no number.
    pub fn read(sector_count: usize) -> (r: Option<usize>)
        ensures
            match r {
                Some(n) => n == ATA_SECTOR_SIZE * sector_count,
                None => ATA_SECTOR_SIZE * sector_count > usize::MAX,
            },
    {
        ATA_SECTOR_SIZE.checked_mul(sector_count)
    }

    /// Whether a buffer of `buffer_len` bytes holds `sector_count` sectors
    /// to write.
    pub fn write(sector_count: usize, buffer_len: usize) -> (r: bool)
        ensures
            r == (buffer_len >= ATA_SECTOR_SIZE * sector_count),
    {
        match ATA_SECTOR_SIZE.checked_mul(sector_count) {
            Some(n) => buffer_len >= n,
            None => false,
        }
    }

    /// What sets a transfer of `sector_count` sectors from sector `sector`
    /// on up, in the direction `direction`, on the drive `drive`.
    ///
    /// A sector number of 28 bits goes out in one round: its top four bits
    /// with the drive, then the sector count and the low three bytes. Any
    /// larger sector number goes out in two rounds: the high bytes of the
    /// sector count and of the sector number, then the low bytes. The
    /// command follows, in its extended form for two rounds.
    pub fn ide_access(
        &self,
        drive: ATADriveType,
        sector: u64,
        sector_count: usize,
        direction: ATADriveDirection,
    ) -> (r: Vec<PortWrite>)
        ensures
            r@ == if uses_lba48(sector) {
                seq![
                    PortWrite { port: self.port(REG_DEVICE_SELECT), value: 0x40 | drive.select_bit() },
                    PortWrite {
                        port: self.port(REG_SECTOR_COUNT0),
                        value: (sector_count / 0x100 % 0x100) as u8,
                    },
                    PortWrite { port: self.port(REG_LBA0), value: sector_byte(sector, 3) },
                    PortWrite { port: self.port(REG_LBA1), value: sector_byte(sector, 4) },
                    PortWrite { port: self.port(REG_LBA2), value: sector_byte(sector, 5) },
                    PortWrite {
                        port: self.port(REG_SECTOR_COUNT0),
                        value: (sector_count % 0x100) as u8,
                    },
                    PortWrite { port: self.port(REG_LBA0), value: sector_byte(sector, 0) },
                    PortWrite { port: self.port(REG_LBA1), value: sector_byte(sector, 1) },
                    PortWrite { port: self.port(REG_LBA2), value: sector_byte(sector, 2) },
                    PortWrite {
                        port: self.port(REG_COMMAND_AND_STATUS),
                        value: if direction == ATADriveDirection::Read {
                            0x24u8
                        } else {
                            0x34u8
                        },
                    },
                ]
            } else {
                seq![
                    PortWrite {
                        port: self.port(REG_DEVICE_SELECT),
                        value: 0xE0 | drive.select_bit() | (sector_byte(sector, 3) & 0x0F),
                    },
                    PortWrite {
                        port: self.port(REG_SECTOR_COUNT0),
                        value: (sector_count % 0x100) as u8,
                    },
                    PortWrite { port: self.port(REG_LBA0), value: sector_byte(sector, 0) },
                    PortWrite { port: self.port(REG_LBA1), value: sector_byte(sector, 1) },
                    PortWrite { port: self.port(REG_LBA2), value: sector_byte(sector, 2) },
                    PortWrite {
                        port: self.port(REG_COMMAND_AND_STATUS),
                        value: if direction == ATADriveDirection::Read {
                            0x20u8
                        } else {
                            0x30u8
                        },
                    },
                ]
            },
    {
        let using_lba48 = sector >= 0x0FFF_FFFF;
        let count_lo = (sector_count % 0x100) as u8;
        let count_hi = (sector_count / 0x100 % 0x100) as u8;
        let lba0 = (sector % 0x100) as u8;
        let lba1 = (sector / 0x100 % 0x100) as u8;
        let lba2 = (sector / 0x1_0000 % 0x100) as u8;
        let lba3 = (sector / 0x100_0000 % 0x100) as u8;
        let lba4 = (sector / 0x1_0000_0000 % 0x100) as u8;
        let lba5 = (sector / 0x100_0000_0000 % 0x100) as u8;
        let mut writes: Vec<PortWrite> = Vec::new();

        if using_lba48 {
            writes.push(self.select(0x40 | drive.as_u8()));

            // High bytes
            writes.push(PortWrite { port: self.io_port(REG_SECTOR_COUNT0), value: count_hi });
            writes.push(PortWrite { port: self.io_port(REG_LBA0), value: lba3 });
            writes.push(PortWrite { port: self.io_port(REG_LBA1), value: lba4 });
            writes.push(PortWrite { port: self.io_port(REG_LBA2), value: lba5 });

            // Low bytes
            writes.push(PortWrite { port: self.io_port(REG_SECTOR_COUNT0), value: count_lo });
            writes.push(PortWrite { port: self.io_port(REG_LBA0), value: lba0 });
            writes.push(PortWrite { port: self.io_port(REG_LBA1), value: lba1 });
            writes.push(PortWrite { port: self.io_port(REG_LBA2), value: lba2 });

            match direction {
                ATADriveDirection::Read => writes.push(
                    self.send_command(ATADriveCommand::ReadPIOExt),
                ),
                ATADriveDirection::Write => writes.push(
                    self.send_command(ATADriveCommand::WritePIOExt),
                ),
            }
        } else {
            writes.push(self.select(0xE0 | drive.as_u8() | (lba3 & 0x0F)));

            writes.push(PortWrite { port: self.io_port(REG_SECTOR_COUNT0), value: count_lo });
            writes.push(PortWrite { port: self.io_port(REG_LBA0), value: lba0 });
            writes.push(PortWrite { port: self.io_port(REG_LBA1), value: lba1 });
            writes.push(PortWrite { port: self.io_port(REG_LBA2), value: lba2 });

            match direction {
                ATADriveDirection::Read => writes.push(self.send_command(ATADriveCommand::ReadPIO)),
                ATADriveDirection::Write => writes.push(
                    self.send_command(ATADriveCommand::WritePIO),
                ),
            }
        }
        writes
    }

    /// What resets the bus: the reset bit is set and, after the status has
    /// been read ten times to let five microseconds pass, cleared.
    pub fn software_reset(&self) -> (r: [PortWrite; 2])
        ensures
            r[0] == (PortWrite {
                port: ((self.control_bar + REG_CONTROL_AND_ALT_STATUS) % 0x1_0000) as u16,
                value: 0x04,
            }),
            r[1] == (PortWrite {
                port: ((self.control_bar + REG_CONTROL_AND_ALT_STATUS) % 0x1_0000) as u16,
                value: 0x00,
            }),
    {
        [
            PortWrite { port: self.alt_status_port(), value: 0x04 },
            PortWrite { port: self.alt_status_port(), value: 0x00 },
        ]
    }
}

/// A drive: what it said of itself, and which drive of its bus it is.
#[derive(Debug)]
pub struct ATADrive {
    pub bus: ATABus,
    pub identify_data: Vec<u8>,
    pub drive_type: ATADriveType,
}

impl ATADrive {
    /// A drive knows a sector's worth of itself.
    pub open spec fn wf(&self) -> bool {
        self.identify_data@.len() == 512
    }

    /// The drive that answered the request to identify with
    /// `identify_data`. `Unsupported` where the drive cannot be addressed
    /// by sector number; `Corrupt` where the answer is not a sector long.
    pub fn new(bus: ATABus, drive: ATADriveType, identify_data: Vec<u8>) -> (r: Result<
        Self,
        VfsError,
    >)
        ensures
            match r {
                Ok(d) => d.wf() && d.bus == bus && d.drive_type == drive && d.identify_data
                    == identify_data && identify_data@[99] & 0x02 != 0,
                Err(e) => if identify_data@.len() != 512 {
                    e == VfsError::Corrupt
                } else {
                    e == VfsError::Unsupported && identify_data@[99] & 0x02 == 0
                },
            },
    {
        if identify_data.len() != ATA_SECTOR_SIZE {
            return Err(VfsError::Corrupt);
        }
        let capabilities_hi = identify_data[99];

        if capabilities_hi & 0x02 == 0 {
            // A drive that is addressed by cylinder, head and sector only.
            return Err(VfsError::Unsupported);
        }
        Ok(Self { bus, identify_data, drive_type: drive })
    }

    /// The number of sectors of the drive: the 32-bit number at byte 120
    /// of what it said of itself.
    pub fn sector_count(&self) -> (r: u64)
        requires
            self.wf(),
        ensures
            r == crate::libs::endian::le_u32(self.identify_data@, 120),
    {
        crate::libs::endian::read_le_u32(self.identify_data.as_slice(), 120) as u64
    }

    /// Whether the `sector_count` sectors from `sector` on lie on the
    /// drive.
    pub fn in_range(&self, sector: u64, sector_count: usize) -> (r: bool)
        requires
            self.wf(),
        ensures
            r == (sector + sector_count <= crate::libs::endian::le_u32(self.identify_data@, 120)),
    {
        sector as u128 + sector_count as u128 <= self.sector_count() as u128
    }
}

} // verus!
