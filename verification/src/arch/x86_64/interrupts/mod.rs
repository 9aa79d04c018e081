//! The interrupt descriptor table and the interrupt vectors in use.

pub mod apic;
pub mod exceptions;

use crate::arch::x86_64::interrupts::apic::RegisterWrite;
use vstd::prelude::*;

verus! {

/// One entry of the interrupt descriptor table, as the processor reads it.
#[derive(Clone, Copy, Debug, PartialEq, Eq, Structural)]
pub struct IdtEntry {
    pub base_lo: u16,
    pub sel: u16,
    pub ist: u8,
    pub flags: u8,
    pub base_mid: u16,
    pub base_hi: u32,
    pub always0: u32,
}

impl IdtEntry {
    /// The address of the handler that the entry leads to.
    pub open spec fn base(self) -> int {
        self.base_lo + self.base_mid * 0x1_0000 + self.base_hi * 0x1_0000_0000
    }

    /// An entry that is not present: all fields zero.
    pub fn new() -> (r: Self)
        ensures
            r == (IdtEntry {
                base_lo: 0,
                sel: 0,
                ist: 0,
                flags: 0,
                base_mid: 0,
                base_hi: 0,
                always0: 0,
            }),
    {
        Self { base_lo: 0, sel: 0, ist: 0, always0: 0, flags: 0, base_hi: 0, base_mid: 0 }
    }

    /// An entry of the kind `flags` that leads to the handler at `base`
    /// through the code segment `sel`.
    pub fn with_handler(base: u64, sel: u16, flags: u8) -> (r: Self)
        ensures
            r.base() == base,
            r.sel == sel,
            r.flags == flags,
            r.ist == 0,
            r.always0 == 0,
    {
        let base_lo = (base % 0x1_0000) as u16;
        let base_mid = ((base / 0x1_0000) % 0x1_0000) as u16;
        let base_hi = (base / 0x1_0000_0000) as u32;
        Self { base_lo, sel, ist: 0, always0: 0, flags, base_hi, base_mid }
    }
}

/// The vectors of the hardware interrupts in use.
#[derive(Clone, Copy, Debug, PartialEq, Eq, Structural)]
pub enum InterruptIndex {
    Timer,
    Keyboard,
}

impl InterruptIndex {
    /// The vector of the interrupt: 32 for the timer, 33 for the keyboard.
    pub open spec fn vector(self) -> u8 {
        match self {
            InterruptIndex::Timer => 32,
            InterruptIndex::Keyboard => 33,
        }
    }

    /// The vector of the interrupt.
    pub fn as_u8(&self) -> (r: u8)
        ensures
            r == self.vector(),
    {
        match self {
            InterruptIndex::Timer => 32,
            InterruptIndex::Keyboard => 33,
        }
    }
}

/// The code segment that interrupt handlers run in.
pub const KERNEL_CODE_SELECTOR: u16 = 0x28;

/// The flags of an interrupt handler that may be called from any ring.
pub const INTERRUPT_FLAGS: u8 = 0xEE;

/// The vector of the system call.
pub const SYSCALL_VECTOR: u8 = 0x80;

/// The entry that leads to the handler at `function_ptr`.
pub open spec fn handler_entry(function_ptr: usize) -> IdtEntry {
    IdtEntry {
        base_lo: (function_ptr as int % 0x1_0000) as u16,
        base_mid: (function_ptr as int / 0x1_0000 % 0x1_0000) as u16,
        base_hi: (function_ptr as int / 0x1_0000_0000 % 0x1_0000_0000) as u32,
        sel: KERNEL_CODE_SELECTOR,
        ist: 0,
        always0: 0,
        flags: INTERRUPT_FLAGS,
    }
}

/// The interrupt descriptor table: one entry for each of the 256 vectors.
pub struct Idt {
    pub entries: Vec<IdtEntry>,
}

impl Idt {
    /// The table has 256 entries.
    pub open spec fn wf(&self) -> bool {
        self.entries@.len() == 256
    }

    /// A table in which no entry is present.
    pub fn new() -> (r: Self)
        ensures
            r.wf(),
            forall|i: int| 0 <= i < 256 ==> r.entries@[i] == (IdtEntry {
                base_lo: 0,
                sel: 0,
                ist: 0,
                flags: 0,
                base_mid: 0,
                base_hi: 0,
                always0: 0,
            }),
    {
        let mut entries: Vec<IdtEntry> = Vec::new();
        let mut i: usize = 0;
        while i < 256
            invariant
                i <= 256,
                entries@.len() == i,
                forall|k: int| 0 <= k < i ==> entries@[k] == (IdtEntry {
                    base_lo: 0,
                    sel: 0,
                    ist: 0,
                    flags: 0,
                    base_mid: 0,
                    base_hi: 0,
                    always0: 0,
                }),
            decreases 256 - i,
        {
            entries.push(IdtEntry::new());
            i += 1;
        }
        Idt { entries }
    }

    /// How many bytes the table takes, less one: what the processor wants
    /// to know of it.
    pub fn limit() -> (r: u16)
        ensures
            r == 16 * 256 - 1,
    {
        16 * 256 - 1
    }

    /// Makes vector `num` lead to the handler at `function_ptr`.
    pub fn idt_set_gate(&mut self, num: u8, function_ptr: usize)
        requires
            old(self).wf(),
        ensures
            final(self).wf(),
            final(self).entries@ == old(self).entries@.update(
                num as int,
                handler_entry(function_ptr),
            ),
    {
        let base = function_ptr as u64;
        self.entries.set(
            num as usize,
            IdtEntry {
                base_lo: (base % 0x1_0000) as u16,
                base_mid: (base / 0x1_0000 % 0x1_0000) as u16,
                base_hi: (base / 0x1_0000_0000 % 0x1_0000_0000) as u32,
                sel: KERNEL_CODE_SELECTOR,
                ist: 0,
                always0: 0,
                flags: INTERRUPT_FLAGS,
            },
        );
    }

    /// The table that the kernel starts with: every vector leads to the
    /// handler at `null_interrupt_handler`, but for the system call, which
    /// leads to the handler at `syscall`.
    pub fn idt_init(null_interrupt_handler: usize, syscall: usize) -> (r: Self)
        ensures
            r.wf(),
            forall|i: int|
                0 <= i < 256 ==> r.entries@[i] == if i == SYSCALL_VECTOR {
                    handler_entry(syscall)
                } else {
                    handler_entry(null_interrupt_handler)
                },
    {
        let mut idt = Idt::new();
        // Set every interrupt to the "null" interrupt handler (it does nothing)
        let mut num: usize = 0;
        while num < 256
            invariant
                num <= 256,
                idt.wf(),
                forall|i: int| 0 <= i < num ==> idt.entries@[i] == handler_entry(null_interrupt_handler),
            decreases 256 - num,
        {
            idt.idt_set_gate(num as u8, null_interrupt_handler);
            num += 1;
        }
        idt.idt_set_gate(SYSCALL_VECTOR, syscall);
        idt
    }
}

/// What tells the interrupt controller that an interrupt has been dealt
/// with: a zero written to the end-of-interrupt register of the local APIC.
pub fn signal_end_of_interrupt() -> (r: RegisterWrite)
    ensures
        r == (RegisterWrite { reg: 0xB0, value: 0 }),
{
    RegisterWrite { reg: 0xB0, value: 0x00 }
}

} // verus!
