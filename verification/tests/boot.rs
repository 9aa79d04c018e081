use kernel::arch::x86_64::gdt::{GDTDescriptor, TSSDescriptor, GDT, GDT_LIMIT};
use kernel::arch::x86_64::interrupts::apic::{
    apic_base, apic_base_value, disable_pic, has_apic, PortWrite, RegisterWrite, APIC, IOAPIC,
    LAPIC,
};
use kernel::arch::x86_64::interrupts::exceptions::{
    exception_response, exceptions_init, Exception, ExceptionHandlers, ExceptionResponse,
};
use kernel::arch::x86_64::interrupts::{signal_end_of_interrupt, Idt, IdtEntry};
use kernel::arch::x86_64::stack_trace::{find_symbol, frame_step, FrameStep, StackFrame};
use kernel::drivers::fs::vfs::VfsError;
use kernel::{
    draw_gradient, parse_kernel_cmdline, processor_brand, with_carriage_returns, BrandRegisters,
    KernelFeatures, LogLevel,
};

#[test]
fn log_levels_are_ordered() {
    let levels = [
        LogLevel::Trace,
        LogLevel::Debug,
        LogLevel::Info,
        LogLevel::Warn,
        LogLevel::Error,
        LogLevel::Fatal,
    ];
    for (i, level) in levels.iter().enumerate() {
        assert_eq!(level.as_u8(), i as u8);
    }
    assert!(LogLevel::Info.enabled(2));
    assert!(LogLevel::Warn.enabled(2));
    assert!(!LogLevel::Debug.enabled(2));
    assert!(LogLevel::Trace.enabled(0));
    assert!(!LogLevel::Fatal.enabled(6));
    let codes: Vec<u8> = levels.iter().map(|l| l.color_code()).collect();
    assert_eq!(codes, vec![90, 94, 92, 93, 91, 95]);
}

#[test]
fn command_line_switches_features() {
    let parse = |line: &str| parse_kernel_cmdline(Some(line.as_bytes()), 2);
    let at_rest = KernelFeatures { log_level: 2, fat_in_mem: true };
    assert_eq!(parse_kernel_cmdline(None, 2), at_rest);
    assert_eq!(KernelFeatures::new(7), KernelFeatures { log_level: 7, fat_in_mem: true });
    assert_eq!(parse(""), at_rest);
    assert_eq!(parse("quiet splash"), at_rest);
    assert_eq!(parse("log_level=4"), KernelFeatures { log_level: 4, fat_in_mem: true });
    assert_eq!(
        parse("  log_level=0\tfat_in_mem=false\n"),
        KernelFeatures { log_level: 0, fat_in_mem: false }
    );
    assert_eq!(parse("fat_in_mem=no"), KernelFeatures { log_level: 2, fat_in_mem: false });
    assert_eq!(parse("fat_in_mem=false fat_in_mem=true"), at_rest);
    // A value that is no number of 8 bits gives the default.
    assert_eq!(parse("log_level=5 log_level=high"), at_rest);
    assert_eq!(parse("log_level=255").log_level, 255);
    assert_eq!(parse("log_level=256").log_level, 2);
    assert_eq!(parse("log_level=").log_level, 2);
    // A word with more than one `=`, or with none, is passed over.
    assert_eq!(parse("log_level=4=5"), at_rest);
    assert_eq!(parse("log_level"), at_rest);
    assert_eq!(parse("LOG_LEVEL=4"), at_rest);
}

#[test]
fn option_is_updated_by_name() {
    let mut features = KernelFeatures::new(3);
    features.update_option(b"log_level", b"1", 3);
    assert_eq!(features, KernelFeatures { log_level: 1, fat_in_mem: true });
    features.update_option(b"fat_in_mem", b"TRUE", 3);
    assert_eq!(features, KernelFeatures { log_level: 1, fat_in_mem: false });
    features.update_option(b"other", b"1", 3);
    assert_eq!(features, KernelFeatures { log_level: 1, fat_in_mem: false });
    features.update_option(b"log_level", b"-1", 3);
    assert_eq!(features.log_level, 3);
}

#[test]
fn carriage_return_follows_line_feed() {
    assert_eq!(with_carriage_returns(b"a\nb\n\n"), b"a\n\rb\n\r\n\r".to_vec());
    assert_eq!(with_carriage_returns(b"plain"), b"plain".to_vec());
    assert_eq!(with_carriage_returns(b""), Vec::<u8>::new());
    assert_eq!(with_carriage_returns(b"\r\n"), b"\r\n\r".to_vec());
}

#[test]
fn brand_string_ends_at_its_first_zero() {
    let word = |s: &[u8; 4]| u32::from_le_bytes(*s);
    let registers = BrandRegisters {
        leaves: [
            [word(b"Abcd"), word(b"efgh"), word(b"ijkl"), word(b"mnop")],
            [word(b"qrst"), word(b"uv\0x"), word(b"yz01"), word(b"2345")],
            [0; 4],
        ],
    };
    assert_eq!(processor_brand(&registers), b"Abcdefghijklmnopqrstuv".to_vec());
    let full = BrandRegisters { leaves: [[word(b"wxyz"); 4]; 3] };
    assert_eq!(processor_brand(&full), b"wxyz".repeat(12));
    assert_eq!(processor_brand(&BrandRegisters { leaves: [[0; 4]; 3] }), Vec::<u8>::new());
}

#[test]
fn gradient_runs_from_corner_to_corner() {
    let pixels = draw_gradient(4, 3);
    assert_eq!(pixels.len(), 12);
    assert_eq!(pixels[0], 0x0000FF);
    assert_eq!(pixels[3], 0xFF0000);
    assert_eq!(pixels[1], (85 << 16) | 170);
    assert_eq!(pixels[4], (127 << 8) | 255);
    assert_eq!(pixels[11], 0xFFFF00);
    assert_eq!(pixels[2 * 4 + 2], (170 << 16) | (255 << 8) | 85);
}

#[test]
fn descriptor_table_of_the_kernel() {
    let gdt = GDT::gdt_init();
    let flat = |limit: u16, access: u8, granularity: u8| GDTDescriptor {
        limit,
        base_low: 0,
        base_mid: 0,
        access,
        granularity,
        base_high: 0,
    };
    assert_eq!(
        gdt.descriptors,
        vec![
            flat(0, 0, 0),
            flat(0xFFFF, 0x9A, 0),
            flat(0xFFFF, 0x92, 0),
            flat(0xFFFF, 0x9A, 0xCF),
            flat(0xFFFF, 0x92, 0xCF),
            flat(0, 0x9A, 0x20),
            flat(0, 0x92, 0),
            flat(0, 0, 0),
            flat(0, 0, 0),
            flat(0, 0xFA, 0x20),
            flat(0, 0xF2, 0),
        ]
    );
    assert_eq!(
        gdt.tss,
        TSSDescriptor {
            length: 104,
            base_low: 0,
            base_mid: 0,
            flags1: 0x89,
            flags2: 0,
            base_high: 0,
            base_upper: 0,
            _reserved: 0,
        }
    );
    assert_eq!(GDT_LIMIT as usize, 11 * 8 + 16 - 1);
}

fn entry_for(handler: u64) -> IdtEntry {
    IdtEntry {
        base_lo: handler as u16,
        sel: 0x28,
        ist: 0,
        flags: 0xEE,
        base_mid: (handler >> 16) as u16,
        base_hi: (handler >> 32) as u32,
        always0: 0,
    }
}

#[test]
fn interrupt_table_starts_with_the_null_handler() {
    let idt = Idt::idt_init(0xFFFF_8000_0010_2030, 0xFFFF_8000_0040_5060);
    assert_eq!(idt.entries.len(), 256);
    assert_eq!(Idt::limit(), 4095);
    for (i, entry) in idt.entries.iter().enumerate() {
        if i == 0x80 {
            assert_eq!(*entry, entry_for(0xFFFF_8000_0040_5060));
        } else {
            assert_eq!(*entry, entry_for(0xFFFF_8000_0010_2030));
        }
    }
    let empty = Idt::new();
    assert!(empty.entries.iter().all(|e| *e == IdtEntry::new()));
    assert_eq!(signal_end_of_interrupt(), RegisterWrite { reg: 0xB0, value: 0 });
}

#[test]
fn exceptions_get_their_handlers() {
    let mut idt = Idt::idt_init(0x1000, 0x2000);
    let handlers = ExceptionHandlers {
        generic_handler: 0xA000,
        div_error: 0xA100,
        invalid_opcode: 0xA200,
        double_fault: 0xA300,
        general_protection_fault: 0xA400,
        page_fault: 0xA500,
    };
    exceptions_init(&mut idt, &handlers);
    for i in 0..256usize {
        let expected = match i {
            0x00 => 0xA100,
            0x06 => 0xA200,
            0x08 => 0xA300,
            0x0D => 0xA400,
            0x0E => 0xA500,
            0..=31 => 0xA000,
            0x80 => 0x2000,
            _ => 0x1000,
        };
        assert_eq!(idt.entries[i], entry_for(expected), "vector {i}");
    }
}

#[test]
fn exceptions_are_reported_once() {
    assert_eq!(exception_response(0, 0), ExceptionResponse::Report(Exception::DivisionError));
    assert_eq!(exception_response(0, 6), ExceptionResponse::Report(Exception::InvalidOpcode));
    assert_eq!(exception_response(0, 8), ExceptionResponse::Report(Exception::DoubleFault));
    assert_eq!(
        exception_response(0, 13),
        ExceptionResponse::Report(Exception::GeneralProtectionFault)
    );
    assert_eq!(exception_response(0, 14), ExceptionResponse::Report(Exception::PageFault));
    assert_eq!(exception_response(0, 3), ExceptionResponse::Report(Exception::Unhandled));
    assert_eq!(exception_response(1, 14), ExceptionResponse::ReportLoop);
    assert_eq!(exception_response(2, 14), ExceptionResponse::Halt);
    assert_eq!(exception_response(255, 0), ExceptionResponse::Halt);
    assert_eq!(Exception::from_vector(usize::MAX), Exception::Unhandled);
}

#[test]
fn stack_frames_are_walked_to_the_null_frame() {
    let frame = StackFrame { back: 0x9000, rip: 0xFFFF_8000_0000_1234 };
    assert_eq!(frame_step(0, frame, 0xFFFF_8000_0000_0000), FrameStep::Stop);
    assert_eq!(
        frame_step(0x8000, frame, 0xFFFF_8000_0000_0000),
        FrameStep::Show { address: 0xFFFF_8000_0000_1234, next: 0x9000 }
    );
    assert_eq!(
        frame_step(0x8000, StackFrame { back: 0x9000, rip: 0x1234 }, 0xFFFF_8000_0000_0000),
        FrameStep::Skip { next: 0x9000 }
    );
    assert_eq!(
        frame_step(0x8000, StackFrame { back: 0, rip: 0x1234 }, 0x1234),
        FrameStep::Show { address: 0x1234, next: 0 }
    );
}

const SYMBOLS: &[u8] = b"1000 start\n1100 kmain\r\n\n2000 panic\n3000 end";

#[test]
fn address_is_named_by_the_table_of_symbols() {
    let named = |address: u64| {
        find_symbol(SYMBOLS, address).map(|(name, offset)| (String::from_utf8(name).unwrap(), offset))
    };
    assert_eq!(named(0x1000), Ok(("start".to_string(), 0)));
    assert_eq!(named(0x1100), Ok(("kmain".to_string(), 0)));
    assert_eq!(named(0x3000), Ok(("end".to_string(), 0)));
    // Between two symbols the first of them is named, with the distance between the two.
    assert_eq!(named(0x1004), Ok(("start".to_string(), 0x100)));
    assert_eq!(named(0x1FFF), Ok(("kmain".to_string(), 0xF00)));
    // The last line is not compared with the line before it.
    assert_eq!(named(0x2ABC), Err(VfsError::NotFound));
    // After the last symbol the address is measured from it.
    assert_eq!(named(0x3010), Ok(("end".to_string(), 0x10)));
    // Before the first symbol there is none.
    assert_eq!(named(0xFFF), Err(VfsError::NotFound));
}

#[test]
fn table_of_symbols_has_to_be_text_with_numbers() {
    assert_eq!(find_symbol(b"", 5), Err(VfsError::NotFound));
    assert_eq!(find_symbol(b"no_blank\n", 5), Err(VfsError::NotFound));
    assert_eq!(find_symbol(b"xyz name\n", 5), Err(VfsError::Corrupt));
    assert_eq!(find_symbol(b"10 a\n\xFF\xFE b\n", 0x10), Err(VfsError::Corrupt));
    assert_eq!(find_symbol(b"10 a b\n", 0x10), Ok((b"a b".to_vec(), 0)));
    assert_eq!(find_symbol(b"20 only", 0x10), Err(VfsError::NotFound));
    assert_eq!(find_symbol(b"20 only", 0x30), Ok((b"only".to_vec(), 0x10)));
}

fn madt_processor(id: u8, apic_id: u8, flags: u32) -> Vec<u8> {
    let mut e = vec![0, 8, id, apic_id];
    e.extend_from_slice(&flags.to_le_bytes());
    e
}

fn madt_io_apic(id: u8, address: u32, base: u32) -> Vec<u8> {
    let mut e = vec![1, 12, id, 0];
    e.extend_from_slice(&address.to_le_bytes());
    e.extend_from_slice(&base.to_le_bytes());
    e
}

fn madt_override(bus: u8, irq: u8, gsi: u32, flags: u16) -> Vec<u8> {
    let mut e = vec![2, 10, bus, irq];
    e.extend_from_slice(&gsi.to_le_bytes());
    e.extend_from_slice(&flags.to_le_bytes());
    e
}

#[test]
fn interrupt_controllers_are_read_from_the_firmware_table() {
    let hhdm = 0xFFFF_8000_0000_0000usize;
    let mut entries = Vec::new();
    entries.extend_from_slice(&madt_processor(0, 0, 1));
    entries.extend_from_slice(&madt_processor(1, 1, 0));
    entries.extend_from_slice(&madt_processor(2, 4, 3));
    entries.extend_from_slice(&madt_io_apic(9, 0xFEC0_0000, 0));
    entries.extend_from_slice(&[4, 6, 0xFF, 0, 0, 1]);
    entries.extend_from_slice(&madt_override(0, 0, 2, 0));
    let apic = APIC::from_madt(0xFEE0_0000, &entries, hhdm).unwrap();
    assert_eq!(apic.local_apic, hhdm + 0xFEE0_0000);
    assert_eq!(
        apic.io_apic,
        IOAPIC { ioapic_id: 9, _reserved: 0, ptr: hhdm + 0xFEC0_0000, global_interrupt_base: 0 }
    );
    assert_eq!(
        apic.cpus,
        vec![
            LAPIC { acpi_processor_id: 0, apic_id: 0, flags: 1 },
            LAPIC { acpi_processor_id: 2, apic_id: 4, flags: 3 },
        ]
    );
    // Another address for the local controller.
    let mut moved = entries.clone();
    moved.extend_from_slice(&[5, 12, 0, 0]);
    moved.extend_from_slice(&0x1_0000_0000u64.to_le_bytes());
    let apic = APIC::from_madt(0xFEE0_0000, &moved, hhdm).unwrap();
    assert_eq!(apic.local_apic, hhdm + 0x1_0000_0000);
    // Of two I/O controllers the last one counts.
    let mut two = entries.clone();
    two.extend_from_slice(&madt_io_apic(10, 0xFEC1_0000, 24));
    let apic = APIC::from_madt(0xFEE0_0000, &two, hhdm).unwrap();
    assert_eq!(apic.io_apic.ioapic_id, 10);
    assert_eq!(apic.io_apic.global_interrupt_base, 24);
}

#[test]
fn firmware_table_has_to_name_what_is_needed() {
    let hhdm = 0xFFFF_8000_0000_0000usize;
    let found = |entries: &[u8]| APIC::from_madt(0xFEE0_0000, entries, hhdm).map(|_| ());
    assert_eq!(found(&[]), Err(VfsError::NotFound));
    assert_eq!(found(&madt_io_apic(9, 0xFEC0_0000, 0)), Err(VfsError::NotFound));
    assert_eq!(found(&madt_override(0, 0, 2, 0)), Err(VfsError::NotFound));
    let mut both = madt_io_apic(9, 0xFEC0_0000, 0);
    both.extend_from_slice(&madt_override(0, 0, 2, 0));
    assert_eq!(found(&both), Ok(()));
    // An entry without a length.
    let mut stuck = both.clone();
    stuck.extend_from_slice(&[7, 0]);
    assert_eq!(found(&stuck), Err(VfsError::Corrupt));
    // An entry that is cut off after its type.
    let mut cut = both.clone();
    cut.push(7);
    assert_eq!(found(&cut), Err(VfsError::Corrupt));
    // A processor that is too short.
    let mut short = both.clone();
    short.extend_from_slice(&[0, 4, 1, 1]);
    assert_eq!(found(&short), Err(VfsError::Corrupt));
    // An entry of another type that claims more than is left ends the table.
    let mut long = both.clone();
    long.extend_from_slice(&[9, 200, 1, 1]);
    assert_eq!(found(&long), Ok(()));
    // An address that does not fit the address space.
    assert_eq!(
        APIC::from_madt(0xFEE0_0000, &both, usize::MAX - 5).map(|_| ()),
        Err(VfsError::Corrupt)
    );
}

#[test]
fn interrupt_controller_registers() {
    assert!(has_apic(0x200));
    assert!(has_apic(0xFFFF_FFFF));
    assert!(!has_apic(0x100));
    assert_eq!(apic_base_value(0xFEE0_1234), 0xFEE0_0800);
    assert_eq!(apic_base_value(0xF_FEE0_0000), 0xFEE0_0800);
    assert_eq!(apic_base(0xFEE0_0900), 0xFEE0_0000);
    assert_eq!(APIC::enable_write(0xFF), RegisterWrite { reg: 0xF0, value: 0x1FF });
    assert_eq!(APIC::number_of_inputs(0x0017_0020), 24);
    assert_eq!(APIC::number_of_inputs(0xFFFF_FFFF), 256);
    assert_eq!(APIC::redirection_register(0), 0x10);
    assert_eq!(APIC::redirection_register(255), 0x10 + 510);
    let apic = APIC {
        io_apic: IOAPIC { ioapic_id: 0, _reserved: 0, ptr: 0, global_interrupt_base: 0 },
        local_apic: 0,
        cpus: Vec::new(),
    };
    assert_eq!(
        apic.lapic_send_ipi(3, 0x4500),
        [RegisterWrite { reg: 0x310, value: 3 << 24 }, RegisterWrite { reg: 0x300, value: 0x4500 }]
    );
    assert_eq!(
        apic.set_interrupt(1, 1, 0xFFFF_FFFF),
        RegisterWrite { reg: 0x12, value: 0x7F00 | 0x21 }
    );
    assert_eq!(apic.set_interrupt(0, 0, 0), RegisterWrite { reg: 0x10, value: 0x20 });
    assert_eq!(apic.end_of_interrupt(), RegisterWrite { reg: 0xB0, value: 0 });
}

#[test]
fn legacy_interrupt_controllers_are_silenced() {
    let w = |port: u16, value: u8| PortWrite { port, value };
    assert_eq!(
        disable_pic(),
        vec![
            w(0x20, 0x11),
            w(0xA0, 0x11),
            w(0x21, 0x20),
            w(0xA1, 0x28),
            w(0x21, 0x04),
            w(0xA1, 0x02),
            w(0x21, 0x01),
            w(0xA1, 0x01),
            w(0x21, 0xFF),
            w(0xA1, 0xFF),
        ]
    );
}
