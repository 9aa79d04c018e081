//! What the kernel does when the processor raises an exception.

use crate::arch::x86_64::interrupts::{handler_entry, Idt};
use vstd::prelude::*;

verus! {

/// The registers as they were when an exception was raised.
#[derive(Clone, Copy, Debug, PartialEq, Eq, Structural)]
pub struct Registers {
    pub interrupt: usize,
    pub r15: usize,
    pub r14: usize,
    pub r13: usize,
    pub r12: usize,
    pub r11: usize,
    pub r10: usize,
    pub r9: usize,
    pub r8: usize,
    pub rbp: usize,
    pub rdi: usize,
    pub rsi: usize,
    pub rdx: usize,
    pub rcx: usize,
    pub rbx: usize,
    pub rax: usize,
    pub rip: usize,
    pub cs: usize,
    pub rflags: usize,
    pub rsp: usize,
    pub ss: usize,
}

/// The exceptions that have names.
#[derive(Clone, Copy, Debug, PartialEq, Eq, Structural)]
pub enum Exception {
    DivisionError,
    InvalidOpcode,
    DoubleFault,
    GeneralProtectionFault,
    PageFault,
    /// Any other exception.
    Unhandled,
}

impl Exception {
    /// The exception with the vector `vector`.
    pub fn from_vector(vector: usize) -> (r: Self)
        ensures
            r == if vector == 0x00 {
                Exception::DivisionError
            } else if vector == 0x06 {
                Exception::InvalidOpcode
            } else if vector == 0x08 {
                Exception::DoubleFault
            } else if vector == 0x0D {
                Exception::GeneralProtectionFault
            } else if vector == 0x0E {
                Exception::PageFault
            } else {
                Exception::Unhandled
            },
    {
        match vector {
            0x00 => Exception::DivisionError,
            0x06 => Exception::InvalidOpcode,
            0x08 => Exception::DoubleFault,
            0x0D => Exception::GeneralProtectionFault,
            0x0E => Exception::PageFault,
            _ => Exception::Unhandled,
        }
    }
}

/// What to do about an exception.
#[derive(Clone, Copy, Debug, PartialEq, Eq, Structural)]
pub enum ExceptionResponse {
    /// Say which exception it is, show the registers and a stack trace,
    /// and stop.
    Report(Exception),
    /// An exception was raised while another was being reported: say so,
    /// show the registers, and stop.
    ReportLoop,
    /// Exceptions keep being raised: stop without another word.
    Halt,
}

/// Decides what to do about the exception with the vector `vector`, where
/// `faulted` exceptions have been raised before it.
pub fn exception_response(faulted: u8, vector: usize) -> (r: ExceptionResponse)
    ensures
        r == if faulted == 0 {
            ExceptionResponse::Report(
                if vector == 0x00 {
                    Exception::DivisionError
                } else if vector == 0x06 {
                    Exception::InvalidOpcode
                } else if vector == 0x08 {
                    Exception::DoubleFault
                } else if vector == 0x0D {
                    Exception::GeneralProtectionFault
                } else if vector == 0x0E {
                    Exception::PageFault
                } else {
                    Exception::Unhandled
                },
            )
        } else if faulted == 1 {
            ExceptionResponse::ReportLoop
        } else {
            ExceptionResponse::Halt
        },
{
    match faulted {
        0 => ExceptionResponse::Report(Exception::from_vector(vector)),
        1 => ExceptionResponse::ReportLoop,
        // We have faulted multiple times, this could indicate an issue with the allocator, stop everything without further logging since it will likely cause more issues
        _ => ExceptionResponse::Halt,
    }
}

/// Where the handlers of the exceptions lie.
#[derive(Clone, Copy, Debug, PartialEq, Eq, Structural)]
pub struct ExceptionHandlers {
    pub generic_handler: usize,
    pub div_error: usize,
    pub invalid_opcode: usize,
    pub double_fault: usize,
    pub general_protection_fault: usize,
    pub page_fault: usize,
}

impl ExceptionHandlers {
    /// The handler of the exception with the vector `i`.
    pub open spec fn of_vector(self, i: int) -> usize {
        if i == 0x00 {
            self.div_error
        } else if i == 0x06 {
            self.invalid_opcode
        } else if i == 0x08 {
            self.double_fault
        } else if i == 0x0D {
            self.general_protection_fault
        } else if i == 0x0E {
            self.page_fault
        } else {
            self.generic_handler
        }
    }
}

/// Makes the vectors of the 32 exceptions lead to their handlers; the other
/// vectors stay as they are.
pub fn exceptions_init(idt: &mut Idt, handlers: &ExceptionHandlers)
    requires
        old(idt).wf(),
    ensures
        final(idt).wf(),
        forall|i: int|
            0 <= i < 256 ==> final(idt).entries@[i] == if i < 32 {
                handler_entry(handlers.of_vector(i))
            } else {
                old(idt).entries@[i]
            },
{
    let mut i: usize = 0;
    while i < 32
        invariant
            i <= 32,
            idt.wf(),
            forall|k: int|
                0 <= k < 256 ==> idt.entries@[k] == if k < i {
                    handler_entry(handlers.generic_handler)
                } else {
                    old(idt).entries@[k]
                },
        decreases 32 - i,
    {
        idt.idt_set_gate(i as u8, handlers.generic_handler);
        i += 1;
    }
    idt.idt_set_gate(0x00, handlers.div_error);
    idt.idt_set_gate(0x06, handlers.invalid_opcode);
    idt.idt_set_gate(0x08, handlers.double_fault);
    idt.idt_set_gate(0x0D, handlers.general_protection_fault);
    idt.idt_set_gate(0x0E, handlers.page_fault);
}

} // verus!
