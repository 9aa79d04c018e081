//! Addresses, alignment, and the sizes of things.

pub mod allocator;
pub mod pmm;
pub mod vmm;

use core::marker::PhantomData;
use vstd::prelude::*;

verus! {

/// The size of a page in bytes.
pub const PAGE_SIZE: usize = 4096;

/// A physical address of a `T`. It cannot be read through: nothing says
/// that the address is mapped.
pub struct PhysicalPtr<T> {
    inner: usize,
    marker: PhantomData<T>,
}

impl<T> Clone for PhysicalPtr<T> {
    fn clone(&self) -> (r: Self)
        ensures
            r@ == self@,
    {
        Self { inner: self.inner, marker: PhantomData }
    }
}

impl<T> Copy for PhysicalPtr<T> {

}

impl<T> View for PhysicalPtr<T> {
    type V = usize;

    /// The address.
    closed spec fn view(&self) -> usize {
        self.inner
    }
}

impl<T> PhysicalPtr<T> {
    /// The pointer to the physical address `ptr`.
    pub fn new(ptr: usize) -> (r: Self)
        ensures
            r@ == ptr,
    {
        Self { inner: ptr, marker: PhantomData }
    }

    /// The null pointer.
    pub fn null_mut() -> (r: Self)
        ensures
            r@ == 0,
    {
        Self { inner: 0, marker: PhantomData }
    }

    /// The address, as a raw pointer would hold it.
    pub fn as_raw_ptr(&self) -> (r: usize)
        ensures
            r == self@,
    {
        self.inner
    }

    /// The address.
    pub fn addr(&self) -> (r: usize)
        ensures
            r == self@,
    {
        self.inner
    }

    /// Whether this is the null pointer.
    pub fn is_null(&self) -> (r: bool)
        ensures
            r == (self@ == 0),
    {
        self.inner == 0
    }

    /// The pointer `count` bytes further; `None` where that is past the end
    /// of the address space.
    pub fn add(&self, count: usize) -> (r: Option<Self>)
        ensures
            match r {
                Some(p) => p@ == self@ + count,
                None => self@ + count > usize::MAX,
            },
    {
        match self.inner.checked_add(count) {
            Some(inner) => Some(Self::new(inner)),
            None => None,
        }
    }

    /// The pointer `count` bytes back; `None` where that is before the start
    /// of the address space.
    pub fn sub(&self, count: usize) -> (r: Option<Self>)
        ensures
            match r {
                Some(p) => p@ == self@ - count,
                None => self@ < count,
            },
    {
        match self.inner.checked_sub(count) {
            Some(inner) => Some(Self::new(inner)),
            None => None,
        }
    }

    /// The same address, as a pointer to a `U`.
    pub fn cast<U>(&self) -> (r: PhysicalPtr<U>)
        ensures
            r@ == self@,
    {
        PhysicalPtr::new(self.inner)
    }

    /// The virtual address at which the higher half maps this physical
    /// address, where the higher half starts at `hhdm_offset`; `None` where
    /// that is past the end of the address space.
    pub fn to_higher_half(&self, hhdm_offset: usize) -> (r: Option<VirtualPtr<T>>)
        ensures
            match r {
                Some(p) => p@ == self@ + hhdm_offset,
                None => self@ + hhdm_offset > usize::MAX,
            },
    {
        match self.inner.checked_add(hhdm_offset) {
            Some(inner) => Some(VirtualPtr::new(inner)),
            None => None,
        }
    }
}

/// A virtual address of a `T`.
pub struct VirtualPtr<T> {
    inner: usize,
    marker: PhantomData<T>,
}

impl<T> Clone for VirtualPtr<T> {
    fn clone(&self) -> (r: Self)
        ensures
            r@ == self@,
    {
        Self { inner: self.inner, marker: PhantomData }
    }
}

impl<T> Copy for VirtualPtr<T> {

}

impl<T> View for VirtualPtr<T> {
    type V = usize;

    /// The address.
    closed spec fn view(&self) -> usize {
        self.inner
    }
}

impl<T> VirtualPtr<T> {
    /// The pointer to the virtual address `ptr`.
    pub fn new(ptr: usize) -> (r: Self)
        ensures
            r@ == ptr,
    {
        Self { inner: ptr, marker: PhantomData }
    }

    /// The null pointer.
    pub fn null_mut() -> (r: Self)
        ensures
            r@ == 0,
    {
        Self { inner: 0, marker: PhantomData }
    }

    /// The address.
    pub fn addr(&self) -> (r: usize)
        ensures
            r == self@,
    {
        self.inner
    }

    /// The address, as a raw pointer would hold it.
    pub fn as_raw_ptr(&self) -> (r: usize)
        ensures
            r == self@,
    {
        self.inner
    }

    /// Whether this is the null pointer.
    pub fn is_null(&self) -> (r: bool)
        ensures
            r == (self@ == 0),
    {
        self.inner == 0
    }

    /// The pointer `count` bytes further; `None` where that is past the end
    /// of the address space.
    pub fn add(&self, count: usize) -> (r: Option<Self>)
        ensures
            match r {
                Some(p) => p@ == self@ + count,
                None => self@ + count > usize::MAX,
            },
    {
        match self.inner.checked_add(count) {
            Some(inner) => Some(Self::new(inner)),
            None => None,
        }
    }

    /// The pointer `count` bytes back; `None` where that is before the start
    /// of the address space.
    pub fn sub(&self, count: usize) -> (r: Option<Self>)
        ensures
            match r {
                Some(p) => p@ == self@ - count,
                None => self@ < count,
            },
    {
        match self.inner.checked_sub(count) {
            Some(inner) => Some(Self::new(inner)),
            None => None,
        }
    }

    /// The same address, as a pointer to a `U`.
    pub fn cast<U>(&self) -> (r: VirtualPtr<U>)
        ensures
            r@ == self@,
    {
        VirtualPtr::new(self.inner)
    }

    /// The physical address that the higher half maps at this virtual
    /// address, where the higher half starts at `hhdm_offset`; `None` where
    /// this address lies below the higher half.
    pub fn to_lower_half(&self, hhdm_offset: usize) -> (r: Option<PhysicalPtr<T>>)
        ensures
            match r {
                Some(p) => p@ == self@ - hhdm_offset,
                None => self@ < hhdm_offset,
            },
    {
        match self.inner.checked_sub(hhdm_offset) {
            Some(inner) => Some(PhysicalPtr::new(inner)),
            None => None,
        }
    }
}

/// Whether `align` is a power of two.
pub open spec fn is_power_of_two(align: usize) -> bool {
    align != 0 && (align as u64) & ((align - 1) as u64) == 0
}

/// Whether `val` is a multiple of the power of two `align`: whether its bits
/// below `align` are all zero.
pub open spec fn is_aligned(val: usize, align: usize) -> bool {
    (val as u64) & ((align - 1) as u64) == 0
}

/// `val`, rounded up to the power of two `align`: `align - 1` is added and
/// the bits below `align` are cleared.
pub open spec fn spec_align_up(val: usize, align: usize) -> u64 {
    ((val + (align - 1)) as u64) & !((align - 1) as u64)
}

/// The smallest multiple of `align` that is not below `val`.
pub fn align_up(val: usize, align: usize) -> (r: usize)
    requires
        is_power_of_two(align),
        val + align - 1 <= usize::MAX,
    ensures
        val <= r < val + align,
        is_aligned(r, align),
        r == spec_align_up(val, align),
{
    let v = val as u64;
    let a = align as u64;
    let r = (v + (a - 1)) & !(a - 1);
    assert(v <= r && r - v < a && r & ((a - 1) as u64) == 0 && r <= v + (a - 1)) by (bit_vector)
        requires
            a != 0 && a & ((a - 1) as u64) == 0,
            v + (a - 1) <= 0xFFFF_FFFF_FFFF_FFFF,
            r == ((v + (a - 1)) as u64) & !((a - 1) as u64),
    ;
    r as usize
}

/// The largest multiple of `align` that is not above `val`.
pub fn align_down(val: usize, align: usize) -> (r: usize)
    requires
        is_power_of_two(align),
    ensures
        r <= val < r + align,
        is_aligned(r, align),
{
    let v = val as u64;
    let a = align as u64;
    let r = v & !(a - 1);
    assert(r <= v && v - r < a && r & ((a - 1) as u64) == 0) by (bit_vector)
        requires
            a != 0 && a & ((a - 1) as u64) == 0,
            r == v & !((a - 1) as u64),
    ;
    r as usize
}

/// The units in which a number of bytes is shown.
#[derive(Clone, Copy, Debug, PartialEq, Eq, Structural)]
pub enum ByteLabelKind {
    BYTE,
    KIB,
    MIB,
    GIB,
}

/// A number of bytes, in the largest unit of which there is at least one.
#[derive(Clone, Copy, Debug, PartialEq, Eq, Structural)]
pub struct ByteLabel {
    pub byte_label: ByteLabelKind,
    pub count: usize,
}

/// The label of a number of bytes: whole GiB from 1 GiB on, else whole MiB
/// from 1 MiB on, else whole KiB from 1 KiB on, else bytes. What does not
/// make a whole unit is dropped.
pub open spec fn label_of(bytes: usize) -> ByteLabel {
    if bytes >= 0x4000_0000 {
        ByteLabel { byte_label: ByteLabelKind::GIB, count: (bytes / 0x4000_0000) as usize }
    } else if bytes >= 0x10_0000 {
        ByteLabel { byte_label: ByteLabelKind::MIB, count: (bytes / 0x10_0000) as usize }
    } else if bytes >= 0x400 {
        ByteLabel { byte_label: ByteLabelKind::KIB, count: (bytes / 0x400) as usize }
    } else {
        ByteLabel { byte_label: ByteLabelKind::BYTE, count: bytes }
    }
}

/// Things that are a number of bytes.
pub trait LabelBytes {
    /// The number of bytes.
    spec fn bytes(&self) -> usize;

    /// The label of the number of bytes; see [`label_of`].
    fn label_bytes(&self) -> (r: ByteLabel)
        ensures
            r == label_of(self.bytes()),
    ;
}

impl LabelBytes for usize {
    open spec fn bytes(&self) -> usize {
        *self
    }

    fn label_bytes(&self) -> (r: ByteLabel) {
        let bytes = *self;

        let mut byte_label = ByteLabel { byte_label: ByteLabelKind::BYTE, count: bytes };

        if bytes >= 0x4000_0000 {
            byte_label.byte_label = ByteLabelKind::GIB;
            byte_label.count = bytes / 0x4000_0000;
        } else if bytes >= 0x10_0000 {
            byte_label.byte_label = ByteLabelKind::MIB;
            byte_label.count = bytes / 0x10_0000;
        } else if bytes >= 0x400 {
            byte_label.byte_label = ByteLabelKind::KIB;
            byte_label.count = bytes / 0x400;
        }
        byte_label
    }
}

impl ByteLabel {
    /// The name of the unit, in the plural unless there is one of it.
    pub fn unit(&self) -> (r: &'static str)
        ensures
            r@ == (match self.byte_label {
                ByteLabelKind::BYTE => if self.count == 1 {
                    "Byte"@
                } else {
                    "Bytes"@
                },
                ByteLabelKind::KIB => if self.count == 1 {
                    "KiB"@
                } else {
                    "KiBs"@
                },
                ByteLabelKind::MIB => if self.count == 1 {
                    "MiB"@
                } else {
                    "MiBs"@
                },
                ByteLabelKind::GIB => if self.count == 1 {
                    "GiB"@
                } else {
                    "GiBs"@
                },
            }),
    {
        match self.byte_label {
            ByteLabelKind::BYTE => if self.count == 1 {
                "Byte"
            } else {
                "Bytes"
            },
            ByteLabelKind::KIB => if self.count == 1 {
                "KiB"
            } else {
                "KiBs"
            },
            ByteLabelKind::MIB => if self.count == 1 {
                "MiB"
            } else {
                "MiBs"
            },
            ByteLabelKind::GIB => if self.count == 1 {
                "GiB"
            } else {
                "GiBs"
            },
        }
    }
}

} // verus!
