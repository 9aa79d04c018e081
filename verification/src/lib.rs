//! Filesystem core of a small x86-64 kernel, with the pure parts of the
//! kernel's support code around it.
//!
//! The heart of the crate is `drivers::fs`: a virtual file system that joins
//! several backends under one namespace, a path-resolution cache over it, a
//! reader for read-only compressed archive images, and a reader for FAT
//! volumes on block devices.

pub mod arch;
pub mod drivers;
pub mod libs;
pub mod mem;
pub mod usr;

use crate::libs::bytes::bytes_eq;
use crate::libs::text::{find_byte, index_of, is_space, is_space_byte, parse_u64, spec_parse_u64};
use vstd::prelude::*;

verus! {

/// How much a message matters.
#[derive(Clone, Copy, Debug, PartialEq, Eq, Structural)]
pub enum LogLevel {
    Trace,
    Debug,
    Info,
    Warn,
    Error,
    Fatal,
}

impl LogLevel {
    /// The number of the level: 0 for `Trace` up to 5 for `Fatal`.
    pub open spec fn rank(self) -> u8 {
        match self {
            LogLevel::Trace => 0,
            LogLevel::Debug => 1,
            LogLevel::Info => 2,
            LogLevel::Warn => 3,
            LogLevel::Error => 4,
            LogLevel::Fatal => 5,
        }
    }

    /// The number of the level.
    pub fn as_u8(self) -> (r: u8)
        ensures
            r == self.rank(),
    {
        match self {
            LogLevel::Trace => 0,
            LogLevel::Debug => 1,
            LogLevel::Info => 2,
            LogLevel::Warn => 3,
            LogLevel::Error => 4,
            LogLevel::Fatal => 5,
        }
    }

    /// Whether a message of this level is shown when the kernel shows
    /// messages from `kernel_log_level` on.
    pub fn enabled(self, kernel_log_level: u8) -> (r: bool)
        ensures
            r == (self.rank() >= kernel_log_level),
    {
        self.as_u8() >= kernel_log_level
    }

    /// The colour code that messages of this level are marked with.
    pub fn color_code(self) -> (r: u8)
        ensures
            r == match self {
                LogLevel::Trace => 90u8,
                LogLevel::Debug => 94u8,
                LogLevel::Info => 92u8,
                LogLevel::Warn => 93u8,
                LogLevel::Error => 91u8,
                LogLevel::Fatal => 95u8,
            },
    {
        match self {
            LogLevel::Trace => 90,
            LogLevel::Debug => 94,
            LogLevel::Info => 92,
            LogLevel::Warn => 93,
            LogLevel::Error => 91,
            LogLevel::Fatal => 95,
        }
    }
}

/// What the kernel command line can switch.
#[derive(Clone, Copy, Debug, PartialEq, Eq, Structural)]
pub struct KernelFeatures {
    pub log_level: u8,
    pub fat_in_mem: bool,
}

pub open spec fn opt_log_level() -> Seq<u8> {
    seq![0x6Cu8, 0x6F, 0x67, 0x5F, 0x6C, 0x65, 0x76, 0x65, 0x6C]
}

pub open spec fn opt_fat_in_mem() -> Seq<u8> {
    seq![0x66u8, 0x61, 0x74, 0x5F, 0x69, 0x6E, 0x5F, 0x6D, 0x65, 0x6D]
}

pub open spec fn word_true() -> Seq<u8> {
    seq![0x74u8, 0x72, 0x75, 0x65]
}

/// The features after the option `option` has been given the value
/// `value`: `log_level` takes a number that fits 8 bits, and `default`
/// where the value is none; `fat_in_mem` holds exactly for the value
/// `true`; any other option changes nothing.
pub open spec fn with_option(
    features: KernelFeatures,
    option: Seq<u8>,
    value: Seq<u8>,
    default: u8,
) -> KernelFeatures {
    if option == opt_log_level() {
        KernelFeatures {
            log_level: match spec_parse_u64(value, 10) {
                Some(v) => if v <= 255 {
                    v as u8
                } else {
                    default
                },
                None => default,
            },
            ..features
        }
    } else if option == opt_fat_in_mem() {
        KernelFeatures { fat_in_mem: value == word_true(), ..features }
    } else {
        features
    }
}

/// The features after one word of the command line: a word that holds
/// exactly one `=` gives the option before the `=` the value after it, and
/// any other word changes nothing.
pub open spec fn with_word(features: KernelFeatures, word: Seq<u8>, default: u8) -> KernelFeatures {
    let eq = index_of(word, 0x3D, 0);
    if eq < word.len() && index_of(word, 0x3D, eq + 1) >= word.len() {
        with_option(features, word.subrange(0, eq), word.subrange(eq + 1, word.len() as int), default)
    } else {
        features
    }
}

/// Where the word that begins at `i` ends: at the next white space, or at
/// the end of `s`.
pub open spec fn word_end(s: Seq<u8>, i: int) -> int
    decreases s.len() - i,
{
    if i < 0 || i >= s.len() || is_space(s[i]) {
        i
    } else {
        word_end(s, i + 1)
    }
}

/// The features after the words of the command line from byte `i` on.
/// Words are separated by white space.
pub open spec fn with_cmdline(
    features: KernelFeatures,
    cmdline: Seq<u8>,
    i: int,
    default: u8,
) -> KernelFeatures
    decreases cmdline.len() - i,
{
    if i < 0 || i >= cmdline.len() {
        features
    } else if is_space(cmdline[i]) {
        with_cmdline(features, cmdline, i + 1, default)
    } else {
        let end = word_end(cmdline, i);
        if end <= i || end > cmdline.len() {
            features
        } else {
            with_cmdline(
                with_word(features, cmdline.subrange(i, end), default),
                cmdline,
                end,
                default,
            )
        }
    }
}

impl KernelFeatures {
    /// The features of a kernel that was given no command line: messages
    /// are shown from `default_log_level` on, and the FAT file system is
    /// kept in memory.
    pub fn new(default_log_level: u8) -> (r: Self)
        ensures
            r == (KernelFeatures { log_level: default_log_level, fat_in_mem: true }),
    {
        KernelFeatures { fat_in_mem: true, log_level: default_log_level }
    }

    /// Gives the option `option` the value `value`; see [`with_option`].
    pub fn update_option(&mut self, option: &[u8], value: &[u8], default_log_level: u8)
        ensures
            *final(self) == with_option(*old(self), option@, value@, default_log_level),
    {
        let log_level: [u8; 9] = [0x6C, 0x6F, 0x67, 0x5F, 0x6C, 0x65, 0x76, 0x65, 0x6C];
        let fat_in_mem: [u8; 10] = [0x66, 0x61, 0x74, 0x5F, 0x69, 0x6E, 0x5F, 0x6D, 0x65, 0x6D];
        let word_true_bytes: [u8; 4] = [0x74, 0x72, 0x75, 0x65];
        assert(log_level@ =~= opt_log_level());
        assert(fat_in_mem@ =~= opt_fat_in_mem());
        assert(word_true_bytes@ =~= word_true());
        if bytes_eq(option, log_level.as_slice()) {
            self.log_level = match parse_u64(value, 10) {
                Some(v) => if v <= 255 {
                    v as u8
                } else {
                    default_log_level
                },
                None => default_log_level,
            };
        } else if bytes_eq(option, fat_in_mem.as_slice()) {
            self.fat_in_mem = bytes_eq(value, word_true_bytes.as_slice());
        }
    }
}

/// Reads the kernel command line: the features that it leaves of those of
/// a kernel without one; see [`with_cmdline`].
pub fn parse_kernel_cmdline(cmdline: Option<&[u8]>, default_log_level: u8) -> (r: KernelFeatures)
    ensures
        r == match cmdline {
            Some(line) => with_cmdline(
                KernelFeatures { log_level: default_log_level, fat_in_mem: true },
                line@,
                0,
                default_log_level,
            ),
            None => KernelFeatures { log_level: default_log_level, fat_in_mem: true },
        },
{
    let mut kernel_features = KernelFeatures::new(default_log_level);
    let cmdline = match cmdline {
        Some(line) => line,
        None => {
            return kernel_features;
        },
    };
    let ghost start = kernel_features;
    let mut i: usize = 0;
    while i < cmdline.len()
        invariant
            i <= cmdline.len(),
            with_cmdline(start, cmdline@, 0, default_log_level) == with_cmdline(
                kernel_features,
                cmdline@,
                i as int,
                default_log_level,
            ),
        decreases cmdline.len() - i,
    {
        if is_space_byte(cmdline[i]) {
            i += 1;
            continue ;
        }
        let mut end: usize = i;
        while end < cmdline.len() && !is_space_byte(cmdline[end])
            invariant
                i <= end <= cmdline.len(),
                word_end(cmdline@, i as int) == word_end(cmdline@, end as int),
            decreases cmdline.len() - end,
        {
            end += 1;
        }
        if end <= i {
            return kernel_features;
        }
        let item = vstd::slice::slice_subrange(cmdline, i, end);
        let eq = find_byte(item, 0x3D, 0);
        if eq < item.len() {
            let second = find_byte(item, 0x3D, eq + 1);
            if second >= item.len() {
                let option = vstd::slice::slice_subrange(item, 0, eq);
                let value = vstd::slice::slice_subrange(item, eq + 1, item.len());
                kernel_features.update_option(option, value, default_log_level);
            }
        }
        i = end;
    }
    kernel_features
}

/// `s` with a carriage return after every line feed, as the serial line
/// wants it.
pub open spec fn spec_with_carriage_returns(s: Seq<u8>) -> Seq<u8>
    decreases s.len(),
{
    if s.len() == 0 {
        s
    } else if s.last() == 0x0A {
        spec_with_carriage_returns(s.drop_last()).push(0x0A).push(0x0D)
    } else {
        spec_with_carriage_returns(s.drop_last()).push(s.last())
    }
}

/// Puts a carriage return after every line feed; see
/// [`spec_with_carriage_returns`].
pub fn with_carriage_returns(s: &[u8]) -> (r: Vec<u8>)
    ensures
        r@ == spec_with_carriage_returns(s@),
{
    let mut out: Vec<u8> = Vec::new();
    let mut i: usize = 0;
    assert(s@.take(0) =~= Seq::<u8>::empty());
    while i < s.len()
        invariant
            i <= s.len(),
            out@ == spec_with_carriage_returns(s@.take(i as int)),
        decreases s.len() - i,
    {
        assert(s@.take(i + 1).drop_last() =~= s@.take(i as int));
        out.push(s[i]);
        if s[i] == 0x0A {
            out.push(0x0D);
        }
        i += 1;
    }
    assert(s@.take(i as int) =~= s@);
    out
}

/// What the processor says of itself in the three brand string leaves of
/// `cpuid`: the registers of each leaf in the order `eax`, `ebx`, `ecx`,
/// `edx`.
pub struct BrandRegisters {
    pub leaves: [[u32; 4]; 3],
}

/// Byte `k` of the 32-bit word `word`, counted from the least significant.
pub open spec fn byte_of(word: u32, k: int) -> u8 {
    if k == 0 {
        (word % 0x100) as u8
    } else if k == 1 {
        (word / 0x100 % 0x100) as u8
    } else if k == 2 {
        (word / 0x1_0000 % 0x100) as u8
    } else {
        (word / 0x100_0000) as u8
    }
}

/// Byte `i` of the 48 bytes of the brand string: the registers in order,
/// each with its least significant byte first.
pub open spec fn brand_byte(registers: BrandRegisters, i: int) -> u8 {
    byte_of(registers.leaves[i / 16][i % 16 / 4], i % 4)
}

/// The number of bytes of the brand string before the first zero byte,
/// counted from `i` on.
pub open spec fn brand_len(registers: BrandRegisters, i: int) -> int
    decreases 48 - i,
{
    if i < 0 || i >= 48 || brand_byte(registers, i) == 0 {
        i
    } else {
        brand_len(registers, i + 1)
    }
}

/// The brand string of the processor: the 48 bytes of the three leaves, up
/// to the first zero byte.
pub fn processor_brand(registers: &BrandRegisters) -> (r: Vec<u8>)
    ensures
        r@.len() == brand_len(*registers, 0),
        forall|i: int| 0 <= i < r@.len() ==> r@[i] == brand_byte(*registers, i),
{
    let mut brand: Vec<u8> = Vec::new();
    let mut i: usize = 0;
    while i < 48
        invariant
            i <= 48,
            brand@.len() == i,
            brand_len(*registers, 0) == brand_len(*registers, i as int),
            forall|k: int| 0 <= k < i ==> brand@[k] == brand_byte(*registers, k),
        decreases 48 - i,
    {
        let word = registers.leaves[i / 16][i % 16 / 4];
        let k = i % 4;
        let byte: u8 = if k == 0 {
            (word % 0x100) as u8
        } else if k == 1 {
            (word / 0x100 % 0x100) as u8
        } else if k == 2 {
            (word / 0x1_0000 % 0x100) as u8
        } else {
            (word / 0x100_0000) as u8
        };
        if byte == 0 {
            return brand;
        }
        brand.push(byte);
        i += 1;
    }
    brand
}

/// The colour of the pixel in column `x` of row `y` of a gradient over a
/// screen of `width` by `height` pixels: red grows to the right, green
/// downwards, and blue to the left.
pub open spec fn gradient_pixel(x: int, y: int, width: int, height: int) -> int {
    let r = 255 * x / (width - 1);
    let g = 255 * y / (height - 1);
    let b = 255 - r;
    r * 0x1_0000 + g * 0x100 + b
}

/// The pixels of a gradient over a screen of `width` by `height` pixels,
/// row after row; see [`gradient_pixel`].
pub fn draw_gradient(width: usize, height: usize) -> (r: Vec<u32>)
    requires
        width > 1,
        height > 1,
        width * height <= usize::MAX,
        255 * width <= usize::MAX,
        255 * height <= usize::MAX,
    ensures
        r@.len() == width * height,
        forall|x: int, y: int|
            0 <= x < width && 0 <= y < height ==> #[trigger] r@[y * width + x] == gradient_pixel(
                x,
                y,
                width as int,
                height as int,
            ),
{
    let mut buffer: Vec<u32> = Vec::new();
    let mut y: usize = 0;
    while y < height
        invariant
            y <= height,
            width > 1,
            height > 1,
            width * height <= usize::MAX,
            255 * width <= usize::MAX,
            255 * height <= usize::MAX,
            buffer@.len() == y * width,
            forall|x: int, row: int|
                0 <= x < width && 0 <= row < y ==> #[trigger] buffer@[row * width + x]
                    == gradient_pixel(x, row, width as int, height as int),
        decreases height - y,
    {
        let mut x: usize = 0;
        let ghost before = buffer@;
        while x < width
            invariant
                x <= width,
                y < height,
                width > 1,
                height > 1,
                255 * width <= usize::MAX,
                255 * height <= usize::MAX,
                before.len() == y * width,
                buffer@.len() == y * width + x,
                forall|k: int| 0 <= k < before.len() ==> buffer@[k] == before[k],
                forall|c: int|
                    0 <= c < x ==> #[trigger] buffer@[y * width + c] == gradient_pixel(
                        c,
                        y as int,
                        width as int,
                        height as int,
                    ),
            decreases width - x,
        {
            let r = (255 * x) / (width - 1);
            let g = (255 * y) / (height - 1);
            assert(r <= 255 && g <= 255) by (nonlinear_arith)
                requires
                    r == (255 * x) / (width - 1) as int,
                    g == (255 * y) / (height - 1) as int,
                    x < width,
                    y < height,
                    width > 1,
                    height > 1,
            ;
            let b = 255 - r;

            let pixel: u32 = (r as u32) * 0x1_0000 + (g as u32) * 0x100 + (b as u32);
            buffer.push(pixel);
            x += 1;
        }
        proof {
            assert forall|c: int, row: int| 0 <= c < width && 0 <= row < y + 1 implies #[trigger] buffer@[row
                * width + c] == gradient_pixel(c, row, width as int, height as int) by {
                if row < y {
                    assert(row * width + c < y * width) by (nonlinear_arith)
                        requires
                            0 <= c < width,
                            0 <= row < y,
                    ;
                    assert(before[row * width + c] == gradient_pixel(
                        c,
                        row,
                        width as int,
                        height as int,
                    ));
                }
            }
            assert((y + 1) * width == y * width + width) by (nonlinear_arith);
        }
        y += 1;
    }
    assert(height * width == width * height) by (nonlinear_arith);
    buffer
}

} // verus!
