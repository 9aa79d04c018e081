use kernel::arch::x86_64::interrupts::apic::PortWrite;
use kernel::drivers::acpi::{root_pointer, RootPointer, RootSDT, SDTHeader, ACPI, FADT, SDT};
use kernel::drivers::fs::vfs::VfsError;
use kernel::drivers::serial::{
    init_serial, is_transmit_empty, normal_mode_write, probe_write, read_serial, serial_recieved,
    setup_writes, transmit_status_port, write_serial, SerialState,
};
use kernel::drivers::storage::ide::{
    ide_initialize, init, ATABus, ATADrive, ATADriveCommand, ATADriveDirection, ATADriveStatus,
    ATADriveType, DriveWait, IDEDriveType, IdentifyCheck,
};
use kernel::drivers::video::{init_video, put_char, Framebuffer, Pixel};

fn table(signature: &[u8; 4], body: &[u8]) -> Vec<u8> {
    let mut t = Vec::new();
    t.extend_from_slice(signature);
    t.extend_from_slice(&((36 + body.len()) as u32).to_le_bytes());
    t.push(2);
    t.push(0x5A);
    t.extend_from_slice(b"VENDOR");
    t.extend_from_slice(b"TABLE_ID");
    t.extend_from_slice(&1u32.to_le_bytes());
    t.extend_from_slice(&0x4C54_4E49u32.to_le_bytes());
    t.extend_from_slice(&3u32.to_le_bytes());
    t.extend_from_slice(body);
    t
}

#[test]
fn table_header_is_read_field_by_field() {
    let bytes = table(b"APIC", &[1, 2, 3]);
    let header = SDTHeader::from_bytes(&bytes).unwrap();
    assert_eq!(header.signature, b"APIC".to_vec());
    assert_eq!(header.length, 39);
    assert_eq!(header.revision, 2);
    assert_eq!(header.checksum, 0x5A);
    assert_eq!(header.oemid, b"VENDOR".to_vec());
    assert_eq!(header.oem_table_id, b"TABLE_ID".to_vec());
    assert_eq!(header.oem_revision, 1);
    assert_eq!(header.creator_id, 0x4C54_4E49);
    assert_eq!(header.creator_revision, 3);
    assert_eq!(SDTHeader::from_bytes(&bytes[..35]).map(|_| ()), Err(VfsError::Corrupt));
    assert!(SDTHeader::from_bytes(&bytes[..36]).is_ok());
}

#[test]
fn table_is_taken_apart() {
    let bytes = table(b"APIC", &[1, 2, 3, 4, 5, 6, 7, 8, 9, 10]);
    let sdt = SDT::new(&bytes, 8).unwrap();
    assert_eq!(sdt.header.signature, b"APIC".to_vec());
    assert_eq!(sdt.inner, vec![1, 2, 3, 4, 5, 6, 7, 8]);
    assert_eq!(sdt.extra, Some(vec![9, 10]));
    let sdt = SDT::new(&bytes, 10).unwrap();
    assert_eq!(sdt.inner.len(), 10);
    assert_eq!(sdt.extra, None);
    let sdt = SDT::new(&bytes, 0).unwrap();
    assert_eq!(sdt.inner, Vec::<u8>::new());
    assert_eq!(sdt.extra.map(|e| e.len()), Some(10));
    assert_eq!(SDT::new(&bytes, 11).map(|_| ()), Err(VfsError::Corrupt));
    assert_eq!(SDT::new(&bytes[..45], 2).map(|_| ()), Err(VfsError::Corrupt));
    assert_eq!(SDT::new(&bytes[..20], 0).map(|_| ()), Err(VfsError::Corrupt));
    let mut longer = bytes.clone();
    longer.push(0);
    assert_eq!(SDT::new(&longer, 2).map(|_| ()), Err(VfsError::Corrupt));
}

#[test]
fn root_pointer_names_the_root_table() {
    let mut rsdp = vec![0u8; 36];
    rsdp[..8].copy_from_slice(b"RSD PTR ");
    rsdp[16..20].copy_from_slice(&0x7FE1_4000u32.to_le_bytes());
    rsdp[24..32].copy_from_slice(&0x1_7FE1_5000u64.to_le_bytes());
    assert_eq!(root_pointer(&rsdp), Some(RootPointer::Rsdt(0x7FE1_4000)));
    assert_eq!(root_pointer(&rsdp[..20]), Some(RootPointer::Rsdt(0x7FE1_4000)));
    assert_eq!(root_pointer(&rsdp[..19]), None);
    rsdp[15] = 2;
    assert_eq!(root_pointer(&rsdp), Some(RootPointer::Xsdt(0x1_7FE1_5000)));
    assert_eq!(root_pointer(&rsdp[..35]), None);
}

#[test]
fn root_table_counts_its_pointers() {
    let bytes = table(b"RSDT", &[0u8; 20]);
    let rsdt = RootSDT::RSDT(SDT::new(&bytes, 0).unwrap());
    assert_eq!(rsdt.len(), 5);
    assert_eq!(rsdt.header().signature, b"RSDT".to_vec());
    let bytes = table(b"XSDT", &[0u8; 20]);
    let mut xsdt = SDT::new(&bytes, 0).unwrap();
    assert_eq!(RootSDT::XSDT(SDT::new(&bytes, 0).unwrap()).len(), 2);
    xsdt.header.length = 35;
    assert_eq!(RootSDT::XSDT(xsdt).len(), 0);
}

#[test]
fn tables_are_found_by_signature() {
    let bytes = table(b"RSDT", &[0u8; 12]);
    let acpi = ACPI {
        root_sdt: RootSDT::RSDT(SDT::new(&bytes, 0).unwrap()),
        tables: vec![b"FACP".to_vec(), b"APIC".to_vec(), b"HPET".to_vec(), b"APIC".to_vec()],
    };
    assert_eq!(acpi.find_table(b"FACP"), Some(0));
    assert_eq!(acpi.find_table(b"APIC"), Some(1));
    assert_eq!(acpi.find_table(b"HPET"), Some(2));
    assert_eq!(acpi.find_table(b"MCFG"), None);
    assert_eq!(acpi.find_table(b"API"), None);
}

#[test]
fn fixed_description_table() {
    let mut bytes = vec![0u8; 36];
    bytes[0..4].copy_from_slice(&0x1111_1111u32.to_le_bytes());
    bytes[4..8].copy_from_slice(&0x2222_2222u32.to_le_bytes());
    bytes[9] = 3;
    bytes[10..12].copy_from_slice(&9u16.to_le_bytes());
    bytes[12..16].copy_from_slice(&0x0001_00B2u32.to_le_bytes());
    bytes[16] = 0xF1;
    bytes[17] = 0xF0;
    bytes[18] = 0xF2;
    bytes[19] = 0x80;
    bytes[20..24].copy_from_slice(&0x600u32.to_le_bytes());
    bytes[24..28].copy_from_slice(&0x700u32.to_le_bytes());
    bytes[28..32].copy_from_slice(&0x0002_0604u32.to_le_bytes());
    bytes[32..36].copy_from_slice(&0x704u32.to_le_bytes());
    let fadt = FADT::from_bytes(&bytes).unwrap();
    assert_eq!(
        fadt,
        FADT {
            firmware_ctrl: 0x1111_1111,
            dsdt: 0x2222_2222,
            preferred_power_management_profile: 3,
            sci_interrupt: 9,
            smi_cmd_port: 0x0001_00B2,
            acpi_enable: 0xF1,
            acpi_disable: 0xF0,
            s4biox_req: 0xF2,
            pstate_control: 0x80,
            pm1a_event_block: 0x600,
            pm1b_event_block: 0x700,
            pm1a_control_block: 0x0002_0604,
            pm1b_control_block: 0x704,
        }
    );
    assert_eq!(FADT::from_bytes(&bytes[..35]), None);
    assert_eq!(fadt.init_acpi(), PortWrite { port: 0xB2, value: 0xF1 });
    assert_eq!(fadt.control_port(), 0x604);
    assert!(FADT::enabled(1));
    assert!(FADT::enabled(0xFFFF));
    assert!(!FADT::enabled(0xFFFE));
}

#[test]
fn serial_line_is_set_up_and_probed() {
    let w = |port: u16, value: u8| PortWrite { port, value };
    assert_eq!(probe_write(), w(0x3FF, 0x42));
    assert_eq!(
        setup_writes(),
        vec![
            w(0x3F9, 0x00),
            w(0x3FB, 0x80),
            w(0x3F8, 0x03),
            w(0x3F9, 0x00),
            w(0x3FB, 0x03),
            w(0x3FA, 0xC7),
            w(0x3FC, 0x0B),
            w(0x3FC, 0x1E),
            w(0x3F8, 0xAE),
        ]
    );
    assert_eq!(normal_mode_write(), w(0x3FC, 0x0F));
    assert_eq!(init_serial(0x42, 0xAE), SerialState::Ready);
    assert_eq!(init_serial(0x41, 0xAE), SerialState::Absent);
    assert_eq!(init_serial(0x42, 0xAF), SerialState::Poisoned);
    assert_eq!(init_serial(0, 0), SerialState::Absent);
    assert_eq!(SerialState::Ready.code(), 0);
    assert_eq!(SerialState::Absent.code(), 1);
    assert_eq!(SerialState::Poisoned.code(), 1);
}

#[test]
fn serial_line_sends_and_receives() {
    assert_eq!(transmit_status_port(), 0x20);
    assert!(is_transmit_empty(0));
    assert!(!is_transmit_empty(0x20));
    assert_eq!(write_serial(b'a'), vec![b'a']);
    assert_eq!(write_serial(b'\n'), vec![b'\r', b'\n']);
    assert_eq!(write_serial(b'\r'), vec![b'\r']);
    assert!(serial_recieved(0));
    assert!(serial_recieved(0xFE));
    assert!(!serial_recieved(1));
    assert_eq!(read_serial(), 0x3F8);
}

#[test]
fn frame_buffer_is_addressed_by_row_and_column() {
    let mut fb = Framebuffer::new(32, 5 * 4, 4, 3).unwrap();
    assert_eq!(fb.pixels, vec![0; 15]);
    assert_eq!(fb.len(), 60);
    fb.put_pixel(0, 0, 1);
    fb.put_pixel(3, 0, 2);
    fb.put_pixel(1, 2, 3);
    // Outside the screen, though inside the buffer.
    fb.put_pixel(4, 0, 9);
    fb.put_pixel(0, 3, 9);
    fb.put_pixel(u32::MAX, u32::MAX, 9);
    assert_eq!(fb.pixels, vec![1, 0, 0, 2, 0, 0, 0, 0, 0, 0, 0, 3, 0, 0, 0]);
    fb.blit_screen(&[7, 7, 7]);
    assert_eq!(&fb.pixels[..5], &[7, 7, 7, 2, 0]);
    fb.blit_screen(&[8; 40]);
    assert_eq!(fb.pixels, vec![8; 15]);
    fb.fill_screen(0xABCDEF);
    assert_eq!(fb.pixels, vec![0xABCDEF; 15]);
}

#[test]
fn frame_buffer_has_pixels_of_32_bits() {
    assert!(Framebuffer::new(24, 16, 4, 3).is_none());
    assert!(Framebuffer::new(32, 15, 3, 3).is_none());
    assert!(Framebuffer::new(32, 16, 5, 3).is_none());
    assert!(Framebuffer::new(32, 16, 4, usize::MAX).is_none());
    assert!(Framebuffer::new(32, 16, 4, 0).is_some());
    assert!(Framebuffer::new(32, 0, 0, 5).is_some());
    let fb = Framebuffer { width: 0, height: usize::MAX, bpp: 32, pitch: 8, pixels: Vec::new() };
    assert_eq!(fb.len(), usize::MAX);
}

#[test]
fn character_is_drawn_from_its_rows() {
    let pixels = put_char(&[0b1000_0001, 0b0100_0000], 2, 3, 0xFFFFFF, 0x101010);
    assert_eq!(pixels.len(), 16);
    assert_eq!(pixels[0], Pixel { x: 16, y: 48, color: 0xFFFFFF });
    assert_eq!(pixels[1], Pixel { x: 17, y: 48, color: 0x101010 });
    assert_eq!(pixels[7], Pixel { x: 23, y: 48, color: 0xFFFFFF });
    assert_eq!(pixels[8], Pixel { x: 16, y: 49, color: 0x101010 });
    assert_eq!(pixels[9], Pixel { x: 17, y: 49, color: 0xFFFFFF });
    assert_eq!(put_char(&[], 0, 0, 1, 2), vec![]);
    // Coordinates wrap round at 16 bits.
    let wrapped = put_char(&[0xFF], 0x2000, 0x1000, 1, 2);
    assert_eq!(wrapped[0], Pixel { x: 0, y: 0, color: 1 });
    assert_eq!(wrapped[7], Pixel { x: 7, y: 0, color: 1 });
    let wrapped = put_char(&[0, 0xFF], 0xFFFF, 0xFFFF, 1, 2);
    assert_eq!(wrapped[0], Pixel { x: 0xFFF8, y: 0xFFF0, color: 2 });
    assert_eq!(wrapped[15], Pixel { x: 0xFFFF, y: 0xFFF1, color: 1 });
}

#[test]
fn drive_status_and_kind() {
    assert_eq!(ATADriveStatus::from(0x01), ATADriveStatus::Error);
    assert_eq!(ATADriveStatus::from(0x08), ATADriveStatus::DataReqReady);
    assert_eq!(ATADriveStatus::from(0x40), ATADriveStatus::Ready);
    assert_eq!(ATADriveStatus::from(0x80), ATADriveStatus::Busy);
    assert_eq!(ATADriveStatus::from(0x81), ATADriveStatus::NotPresent);
    assert_eq!(ATADriveStatus::from(0x00), ATADriveStatus::NotPresent);
    assert_eq!(ATADriveStatus::from(0xFF), ATADriveStatus::NotPresent);
    for status in [
        ATADriveStatus::Error,
        ATADriveStatus::Index,
        ATADriveStatus::Corrupt,
        ATADriveStatus::DataReqReady,
        ATADriveStatus::DriveSeekDone,
        ATADriveStatus::WriteFault,
        ATADriveStatus::Ready,
        ATADriveStatus::Busy,
    ] {
        assert_eq!(ATADriveStatus::from(status.bits()), status);
        assert_eq!(status.bits().count_ones(), 1);
        assert!(status.is_set_in(status.bits()));
        assert!(!status.is_set_in(!status.bits()));
    }
    assert_eq!(IDEDriveType::from_lba(0x00, 0x00), Some(IDEDriveType::Pata));
    assert_eq!(IDEDriveType::from_lba(0x14, 0xEB), Some(IDEDriveType::PataPi));
    assert_eq!(IDEDriveType::from_lba(0x3C, 0xC3), Some(IDEDriveType::Sata));
    assert_eq!(IDEDriveType::from_lba(0x69, 0x96), Some(IDEDriveType::SataPi));
    assert_eq!(IDEDriveType::from_lba(0x14, 0x00), None);
    assert_eq!(IDEDriveType::from_lba(0xEB, 0x14), None);
    assert_eq!(ATADriveCommand::Identify.as_u8(), 0xEC);
    assert_eq!(ATADriveCommand::ReadPIO.as_u8(), 0x20);
    assert_eq!(ATADriveCommand::WritePIOExt.as_u8(), 0x34);
    assert_eq!(ATADriveCommand::CacheFlush.as_u8(), 0xE7);
    assert_eq!(ATADriveType::Parent.as_u8(), 0x00);
    assert_eq!(ATADriveType::Child.as_u8(), 0x10);
}

#[test]
fn bus_ports() {
    assert_eq!(init(), ATABus { io_bar: 0x1F0, control_bar: 0x3F4 });
    assert_eq!(ide_initialize(0xABCD_01F3, 0x0001_0377), ATABus { io_bar: 0x1F0, control_bar: 0x374 });
    let bus = ATABus::new(0x1F0, 0x3F6);
    assert_eq!(bus.select(0xA0), PortWrite { port: 0x1F6, value: 0xA0 });
    assert_eq!(bus.send_command(ATADriveCommand::CacheFlushExt), PortWrite { port: 0x1F7, value: 0xEA });
    assert_eq!(bus.status(), 0x1F7);
    assert_eq!(bus.alt_status_port(), 0x3F6);
    assert_eq!(bus.io_port(2), 0x1F2);
    assert_eq!(ATABus::new(0xFFFC, 0xFFFF).io_port(7), 3);
    assert_eq!(
        bus.software_reset(),
        [PortWrite { port: 0x3F6, value: 4 }, PortWrite { port: 0x3F6, value: 0 }]
    );
}

#[test]
fn waiting_for_the_drive() {
    assert_eq!(ATABus::wait_for_drive_ready(0x08), DriveWait::Ready);
    assert_eq!(ATABus::wait_for_drive_ready(0x48), DriveWait::Ready);
    assert_eq!(ATABus::wait_for_drive_ready(0x88), DriveWait::Again);
    assert_eq!(ATABus::wait_for_drive_ready(0x40), DriveWait::Again);
    assert_eq!(ATABus::wait_for_drive_ready(0x00), DriveWait::Again);
    assert_eq!(ATABus::wait_for_drive_ready(0x09), DriveWait::Failed);
    assert_eq!(ATABus::wait_for_drive_ready(0x28), DriveWait::Failed);
    assert_eq!(ATABus::wait_for_drive_ready(0x81), DriveWait::Failed);
    assert!(ATABus::await_busy(0x80));
    assert!(ATABus::await_busy(0xFF));
    assert!(!ATABus::await_busy(0x7F));
}

#[test]
fn drive_is_asked_to_identify_itself() {
    let bus = ATABus::new(0x1F0, 0x3F6);
    let w = |port: u16, value: u8| PortWrite { port, value };
    assert_eq!(
        bus.identify(ATADriveType::Child),
        vec![
            w(0x1F6, 0xB0),
            w(0x1F2, 0),
            w(0x1F3, 0),
            w(0x1F4, 0),
            w(0x1F5, 0),
            w(0x3F6, 2),
            w(0x1F7, 0xEC),
        ]
    );
    assert_eq!(bus.identify(ATADriveType::Parent)[0], w(0x1F6, 0xA0));
    assert_eq!(ATABus::identify_check(true, 0, 0, 0), IdentifyCheck::Absent);
    assert_eq!(ATABus::identify_check(false, 0, 0, 0), IdentifyCheck::Proceed);
    assert_eq!(ATABus::identify_check(true, 0x80, 0, 0), IdentifyCheck::Again);
    assert_eq!(ATABus::identify_check(false, 0x80, 0x14, 0xEB), IdentifyCheck::Absent);
    assert_eq!(ATABus::identify_check(false, 0x80, 0, 1), IdentifyCheck::Absent);
    assert_eq!(ATABus::identify_check(true, 0x58, 0, 0), IdentifyCheck::Proceed);
    assert_eq!(ATABus::identify_check(true, 0x58, 0x3C, 0xC3), IdentifyCheck::Absent);
}

#[test]
fn transfer_is_set_up_in_28_or_48_bits() {
    let bus = ATABus::new(0x1F0, 0x3F6);
    let w = |port: u16, value: u8| PortWrite { port, value };
    assert_eq!(
        bus.ide_access(ATADriveType::Parent, 0x0ABC_DEF1, 0x102, ATADriveDirection::Read),
        vec![
            w(0x1F6, 0xEA),
            w(0x1F2, 0x02),
            w(0x1F3, 0xF1),
            w(0x1F4, 0xDE),
            w(0x1F5, 0xBC),
            w(0x1F7, 0x20),
        ]
    );
    assert_eq!(
        bus.ide_access(ATADriveType::Child, 0x0FFF_FFFE, 1, ATADriveDirection::Write),
        vec![
            w(0x1F6, 0xFF),
            w(0x1F2, 0x01),
            w(0x1F3, 0xFE),
            w(0x1F4, 0xFF),
            w(0x1F5, 0xFF),
            w(0x1F7, 0x30),
        ]
    );
    assert_eq!(
        bus.ide_access(ATADriveType::Child, 0x0FFF_FFFF, 0x0304, ATADriveDirection::Read),
        vec![
            w(0x1F6, 0x50),
            w(0x1F2, 0x03),
            w(0x1F3, 0x0F),
            w(0x1F4, 0x00),
            w(0x1F5, 0x00),
            w(0x1F2, 0x04),
            w(0x1F3, 0xFF),
            w(0x1F4, 0xFF),
            w(0x1F5, 0xFF),
            w(0x1F7, 0x24),
        ]
    );
    assert_eq!(
        bus.ide_access(ATADriveType::Parent, 0x1122_3344_5566, 1, ATADriveDirection::Write),
        vec![
            w(0x1F6, 0x40),
            w(0x1F2, 0x00),
            w(0x1F3, 0x33),
            w(0x1F4, 0x22),
            w(0x1F5, 0x11),
            w(0x1F2, 0x01),
            w(0x1F3, 0x66),
            w(0x1F4, 0x55),
            w(0x1F5, 0x44),
            w(0x1F7, 0x34),
        ]
    );
}

#[test]
fn transfer_sizes() {
    assert_eq!(ATABus::read(3), Some(1536));
    assert_eq!(ATABus::read(0), Some(0));
    assert_eq!(ATABus::read(usize::MAX / 512 + 1), None);
    assert!(ATABus::write(2, 1024));
    assert!(ATABus::write(2, 2000));
    assert!(!ATABus::write(2, 1023));
    assert!(!ATABus::write(usize::MAX, usize::MAX));
    assert!(ATABus::write(0, 0));
}

#[test]
fn drive_says_how_large_it_is() {
    let bus = ATABus::new(0x1F0, 0x3F6);
    let mut identity = vec![0u8; 512];
    identity[99] = 0x02;
    identity[120..124].copy_from_slice(&0x0010_0000u32.to_le_bytes());
    let drive = ATADrive::new(bus, ATADriveType::Parent, identity.clone()).unwrap();
    assert_eq!(drive.sector_count(), 0x0010_0000);
    assert_eq!(drive.bus, bus);
    assert_eq!(drive.drive_type, ATADriveType::Parent);
    assert!(drive.in_range(0, 0x0010_0000));
    assert!(drive.in_range(0x000F_FFFF, 1));
    assert!(!drive.in_range(0x000F_FFFF, 2));
    assert!(!drive.in_range(u64::MAX, usize::MAX));
    identity[99] = 0xFD;
    assert_eq!(
        ATADrive::new(bus, ATADriveType::Parent, identity.clone()).map(|_| ()),
        Err(VfsError::Unsupported)
    );
    identity.push(0);
    assert_eq!(
        ATADrive::new(bus, ATADriveType::Parent, identity).map(|_| ()),
        Err(VfsError::Corrupt)
    );
}

#[test]
fn screen_starts_with_the_prompt() {
    let prompt = [0b1100_0000u8, 0b0011_0000];
    let blank = [0u8, 0];
    let pixels = init_video(&prompt, &blank);
    assert_eq!(pixels.len(), 32);
    assert_eq!(pixels[0], Pixel { x: 0, y: 0, color: 0xFFFFFF });
    assert_eq!(pixels[2], Pixel { x: 2, y: 0, color: 0 });
    assert_eq!(pixels[10], Pixel { x: 2, y: 1, color: 0xFFFFFF });
    assert_eq!(pixels[16], Pixel { x: 8, y: 0, color: 0 });
    assert_eq!(pixels[31], Pixel { x: 15, y: 1, color: 0 });
    let mut both = put_char(&prompt, 0, 0, 0xFFFFFF, 0);
    both.extend(put_char(&blank, 1, 0, 0xFFFFFF, 0));
    assert_eq!(pixels, both);
}

#[test]
fn root_table_points_to_the_other_tables() {
    let mut pointers = Vec::new();
    pointers.extend_from_slice(&0x7FE1_0000u32.to_le_bytes());
    pointers.extend_from_slice(&0x7FE2_0000u32.to_le_bytes());
    pointers.extend_from_slice(&[0xAA, 0xBB]);
    let rsdt = RootSDT::RSDT(SDT::new(&table(b"RSDT", &pointers), 0).unwrap());
    assert_eq!(rsdt.get(0), Some(0x7FE1_0000));
    assert_eq!(rsdt.get(1), Some(0x7FE2_0000));
    assert_eq!(rsdt.get(2), None);
    assert_eq!(rsdt.get(usize::MAX), None);
    let xsdt = RootSDT::XSDT(SDT::new(&table(b"XSDT", &pointers), 0).unwrap());
    assert_eq!(xsdt.get(0), Some(0x7FE2_0000_7FE1_0000));
    assert_eq!(xsdt.get(1), None);
    let bare = RootSDT::XSDT(SDT::new(&table(b"XSDT", &[]), 0).unwrap());
    assert_eq!(bare.get(0), None);
}
