//! The global descriptor table.

use vstd::prelude::*;

verus! {

/// One segment descriptor, as the processor reads it.
#[derive(Clone, Copy, Debug, PartialEq, Eq, Structural)]
pub struct GDTDescriptor {
    pub limit: u16,
    pub base_low: u16,
    pub base_mid: u8,
    pub access: u8,
    pub granularity: u8,
    pub base_high: u8,
}

/// The descriptor of the task state segment.
#[derive(Clone, Copy, Debug, PartialEq, Eq, Structural)]
pub struct TSSDescriptor {
    pub length: u16,
    pub base_low: u16,
    pub base_mid: u8,
    pub flags1: u8,
    pub flags2: u8,
    pub base_high: u8,
    pub base_upper: u32,
    pub _reserved: u32,
}

/// The global descriptor table: eleven segment descriptors and the
/// descriptor of the task state segment.
pub struct GDT {
    pub descriptors: Vec<GDTDescriptor>,
    pub tss: TSSDescriptor,
}

/// A segment with the base 0 and the given limit, access byte and
/// granularity byte.
pub open spec fn flat_segment(limit: u16, access: u8, granularity: u8) -> GDTDescriptor {
    GDTDescriptor { limit, base_low: 0, base_mid: 0, access, granularity, base_high: 0 }
}

/// The segments of the kernel's table, in order: the null segment; code and
/// data for 16 bits, for 32 bits and for 64 bits in ring 0; two unused
/// entries; and code and data for 64 bits in ring 3.
pub open spec fn kernel_segments() -> Seq<GDTDescriptor> {
    seq![
        flat_segment(0, 0, 0),
        flat_segment(0xFFFF, 0x9A, 0),
        flat_segment(0xFFFF, 0x92, 0),
        flat_segment(0xFFFF, 0x9A, 0xCF),
        flat_segment(0xFFFF, 0x92, 0xCF),
        flat_segment(0, 0x9A, 0x20),
        flat_segment(0, 0x92, 0),
        flat_segment(0, 0, 0),
        flat_segment(0, 0, 0),
        flat_segment(0, 0xFA, 0x20),
        flat_segment(0, 0xF2, 0),
    ]
}

/// A segment with the base 0.
fn segment(limit: u16, access: u8, granularity: u8) -> (r: GDTDescriptor)
    ensures
        r == flat_segment(limit, access, granularity),
{
    GDTDescriptor { limit, base_low: 0, base_mid: 0, access, granularity, base_high: 0 }
}

/// How many bytes the table takes, less one: what the processor wants to
/// know of it.
pub const GDT_LIMIT: u16 = 103;

impl GDT {
    /// The kernel's table; see [`kernel_segments`]. The task state segment
    /// has the base 0 and a length of 104 bytes and is marked as present.
    pub fn gdt_init() -> (r: Self)
        ensures
            r.descriptors@ == kernel_segments(),
            r.tss == (TSSDescriptor {
                length: 104,
                base_low: 0,
                base_mid: 0,
                flags1: 0x89,
                flags2: 0,
                base_high: 0,
                base_upper: 0,
                _reserved: 0,
            }),
    {
        let mut descriptors: Vec<GDTDescriptor> = Vec::new();
        descriptors.push(segment(0, 0, 0));
        descriptors.push(segment(0xFFFF, 0x9A, 0));
        descriptors.push(segment(0xFFFF, 0x92, 0));
        descriptors.push(segment(0xFFFF, 0x9A, 0xCF));
        descriptors.push(segment(0xFFFF, 0x92, 0xCF));
        descriptors.push(segment(0, 0x9A, 0x20));
        descriptors.push(segment(0, 0x92, 0));
        // descriptors[7] and descriptors[8] are dummy entries for SYSENTER
        descriptors.push(segment(0, 0, 0));
        descriptors.push(segment(0, 0, 0));
        descriptors.push(segment(0, 0xFA, 0x20));
        descriptors.push(segment(0, 0xF2, 0));
        assert(descriptors@ =~= kernel_segments());

        GDT {
            descriptors,
            tss: TSSDescriptor {
                length: 104,
                base_low: 0,
                base_mid: 0,
                flags1: 0x89,
                flags2: 0,
                base_high: 0,
                base_upper: 0,
                _reserved: 0,
            },
        }
    }
}

} // verus!
