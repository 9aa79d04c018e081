//! Names for the addresses of a stack trace, from the table of symbols that
//! is kept in the root file system.

use crate::drivers::fs::vfs::{
    open_path, segments, FsOps, UserCred, VNodeOperations, VfsContext, VfsError,
};
use crate::libs::bytes::copy_of;
use crate::libs::text::{find_byte, index_of, parse_u64, spec_parse_u64, str_from_utf8};
use vstd::prelude::*;
use vstd::slice::slice_subrange;
use vstd::utf8::valid_utf8;

verus! {

/// One frame of the call stack, as the compiler lays it out: the frame
/// before it, and where the call returns to.
#[derive(Clone, Copy, Debug, PartialEq, Eq, Structural)]
pub struct StackFrame {
    pub back: usize,
    pub rip: usize,
}

/// What to do for one frame of a stack trace.
#[derive(Clone, Copy, Debug, PartialEq, Eq, Structural)]
pub enum FrameStep {
    /// The trace is at its end.
    Stop,
    /// The frame lies below the kernel: pass it over.
    Skip { next: usize },
    /// Show the address, and the symbol it belongs to where it has one.
    Show { address: usize, next: usize },
}

/// Decides what to do for the frame at `frame_ptr`, which holds `frame`,
/// where the kernel lies above `hhdm_offset`.
pub fn frame_step(frame_ptr: usize, frame: StackFrame, hhdm_offset: usize) -> (r: FrameStep)
    ensures
        r == if frame_ptr == 0 {
            FrameStep::Stop
        } else if frame.rip < hhdm_offset {
            FrameStep::Skip { next: frame.back }
        } else {
            FrameStep::Show { address: frame.rip, next: frame.back }
        },
{
    if frame_ptr == 0 {
        FrameStep::Stop
    } else if frame.rip < hhdm_offset {
        FrameStep::Skip { next: frame.back }
    } else {
        FrameStep::Show { address: frame.rip, next: frame.back }
    }
}

/// Where the line that begins at `i` ends, and where its line feed lies.
/// A line ends at a line feed or at the end of the table; a carriage
/// return before the line feed does not belong to the line.
pub open spec fn line_at(s: Seq<u8>, i: int) -> (int, int) {
    let feed = index_of(s, 0x0A, i);
    let end = if feed < s.len() && i < feed && s[feed - 1] == 0x0D {
        feed - 1
    } else {
        feed
    };
    (end, feed)
}

/// The lines of the table from byte `i` on.
pub open spec fn lines_from(s: Seq<u8>, i: int) -> Seq<Seq<u8>>
    decreases s.len() - i,
{
    if i < 0 || i >= s.len() {
        Seq::empty()
    } else {
        let (end, feed) = line_at(s, i);
        if feed < i || end < i || end > s.len() {
            Seq::empty()
        } else if feed >= s.len() {
            seq![s.subrange(i, end)]
        } else {
            seq![s.subrange(i, end)] + lines_from(s, feed + 1)
        }
    }
}

/// A symbol of the table: an address and a name.
pub struct Symbol {
    pub address: u64,
    pub name: Seq<u8>,
}

/// What a line of the table says.
pub enum Line {
    /// The line has no blank: it says nothing.
    Empty,
    /// The line does not begin with a number in base 16.
    Bad,
    /// The line names a symbol: its address, a blank, and its name.
    Names(Symbol),
}

/// What the line `line` says.
pub open spec fn read_line(line: Seq<u8>) -> Line {
    let blank = index_of(line, 0x20, 0);
    if blank >= line.len() {
        Line::Empty
    } else {
        match spec_parse_u64(line.subrange(0, blank), 16) {
            None => Line::Bad,
            Some(address) => Line::Names(
                Symbol { address, name: line.subrange(blank + 1, line.len() as int) },
            ),
        }
    }
}

/// The symbol that the address `target` belongs to, and how far into the
/// symbol it lies, going by the lines of the table from line `i` on, where
/// `previous` is the symbol of the last line before that named one.
///
/// Lines that say nothing are passed over. A symbol at `target` is the
/// answer, with the offset 0. The symbol of the last line of the table is
/// the answer for every address not below it. An address below the symbol
/// of the first line belongs to no symbol. For an address between the
/// last symbol and this one the last symbol is the answer, with the
/// distance between the two symbols. `Corrupt` where a line does not begin
/// with a number; `NotFound` where the table ends without an answer.
pub open spec fn symbol_scan(
    lines: Seq<Seq<u8>>,
    i: int,
    previous: Option<Symbol>,
    target: u64,
) -> Result<(Seq<u8>, u64), VfsError>
    decreases lines.len() - i,
{
    if i < 0 || i >= lines.len() {
        Err(VfsError::NotFound)
    } else {
        match read_line(lines[i]) {
            Line::Empty => symbol_scan(lines, i + 1, previous, target),
            Line::Bad => Err(VfsError::Corrupt),
            Line::Names(symbol) => {
                if symbol.address == target {
                    Ok((symbol.name, 0))
                } else if i == lines.len() - 1 {
                    if target < symbol.address {
                        Err(VfsError::NotFound)
                    } else {
                        Ok((symbol.name, (target - symbol.address) as u64))
                    }
                } else if i == 0 {
                    if target < symbol.address {
                        Err(VfsError::NotFound)
                    } else {
                        symbol_scan(lines, i + 1, Some(symbol), target)
                    }
                } else {
                    match previous {
                        Some(prev) => if target > prev.address && target < symbol.address {
                            Ok((prev.name, (symbol.address - prev.address) as u64))
                        } else {
                            symbol_scan(lines, i + 1, Some(symbol), target)
                        },
                        None => symbol_scan(lines, i + 1, Some(symbol), target),
                    }
                }
            },
        }
    }
}

/// The symbol that the address `function_address` belongs to, going by the
/// table of symbols `table`; see [`symbol_scan`]. `Corrupt` where the table
/// is not valid UTF-8.
pub open spec fn spec_find_symbol(table: Seq<u8>, function_address: u64) -> Result<
    (Seq<u8>, u64),
    VfsError,
> {
    if !valid_utf8(table) {
        Err(VfsError::Corrupt)
    } else {
        symbol_scan(lines_from(table, 0), 0, None, function_address)
    }
}

/// A line of the table: where it begins and ends.
struct Span {
    from: usize,
    to: usize,
}

/// Finds the lines of the table; see [`lines_from`].
#[verifier::loop_isolation(false)]
fn split_lines(table: &[u8]) -> (r: Vec<Span>)
    ensures
        r@.len() == lines_from(table@, 0).len(),
        forall|k: int|
            0 <= k < r@.len() ==> (#[trigger] r@[k]).from <= r@[k].to <= table.len()
                && table@.subrange(r@[k].from as int, r@[k].to as int) == lines_from(table@, 0)[k],
{
    let mut spans: Vec<Span> = Vec::new();
    let mut i: usize = 0;
    let ghost mut done: Seq<Seq<u8>> = Seq::empty();
    proof {
        assert(done + lines_from(table@, 0) =~= lines_from(table@, 0));
    }
    while i < table.len()
        invariant
            i <= table.len(),
            lines_from(table@, 0) == done + lines_from(table@, i as int),
            spans@.len() == done.len(),
            forall|k: int|
                0 <= k < spans@.len() ==> (#[trigger] spans@[k]).from <= spans@[k].to
                    <= table.len() && table@.subrange(spans@[k].from as int, spans@[k].to as int)
                    == done[k],
        decreases table.len() - i,
    {
        let feed = find_byte(table, 0x0A, i);
        let end = if feed < table.len() && i < feed && table[feed - 1] == 0x0D {
            feed - 1
        } else {
            feed
        };
        proof {
            let line = table@.subrange(i as int, end as int);
            if feed >= table.len() {
                assert(done + seq![line] =~= done.push(line));
            } else {
                let rest = lines_from(table@, feed + 1);
                assert(done + (seq![line] + rest) =~= done.push(line) + rest);
            }
            done = done.push(line);
        }
        let ghost before = spans@;
        spans.push(Span { from: i, to: end });
        proof {
            assert forall|k: int| 0 <= k < spans@.len() implies (#[trigger] spans@[k]).from
                <= spans@[k].to <= table.len() && table@.subrange(
                spans@[k].from as int,
                spans@[k].to as int,
            ) == done[k] by {
                if k < before.len() {
                    assert(spans@[k] == before[k]);
                }
            }
        }
        if feed >= table.len() {
            return spans;
        }
        i = feed + 1;
    }
    proof {
        assert(done + Seq::<Seq<u8>>::empty() =~= done);
    }
    spans
}

/// Looks the address `function_address` up in the table of symbols `table`;
/// see [`spec_find_symbol`].
#[verifier::loop_isolation(false)]
pub fn find_symbol(table: &[u8], function_address: u64) -> (r: Result<(Vec<u8>, u64), VfsError>)
    ensures
        match (r, spec_find_symbol(table@, function_address)) {
            (Ok((name, offset)), Ok((n, o))) => name@ == n && offset == o,
            (Err(e1), Err(e2)) => e1 == e2,
            _ => false,
        },
{
    if str_from_utf8(table).is_none() {
        return Err(VfsError::Corrupt);
    }
    let symbols_table_lines = split_lines(table);
    let ghost lines = lines_from(table@, 0);

    let mut previous_symbol: Option<(usize, usize, u64)> = None;
    let mut i: usize = 0;
    while i < symbols_table_lines.len()
        invariant
            i <= symbols_table_lines.len(),
            lines == lines_from(table@, 0),
            symbols_table_lines@.len() == lines.len(),
            forall|k: int|
                0 <= k < symbols_table_lines@.len() ==> (#[trigger] symbols_table_lines@[k]).from
                    <= symbols_table_lines@[k].to <= table.len() && table@.subrange(
                    symbols_table_lines@[k].from as int,
                    symbols_table_lines@[k].to as int,
                ) == lines[k],
            match previous_symbol {
                Some((from, to, _)) => from <= to <= table.len(),
                None => true,
            },
            symbol_scan(lines, 0, None, function_address) == symbol_scan(
                lines,
                i as int,
                match previous_symbol {
                    Some((from, to, address)) => Some(
                        Symbol { address, name: table@.subrange(from as int, to as int) },
                    ),
                    None => None,
                },
                function_address,
            ),
        decreases symbols_table_lines.len() - i,
    {
        let span_from = symbols_table_lines[i].from;
        let span_to = symbols_table_lines[i].to;
        let line = slice_subrange(table, span_from, span_to);
        assert(line@ == lines[i as int]);
        let blank = find_byte(line, 0x20, 0);
        if blank >= line.len() {
            i += 1;
            continue ;
        }
        let address = match parse_u64(slice_subrange(line, 0, blank), 16) {
            Some(address) => address,
            None => {
                return Err(VfsError::Corrupt);
            },
        };
        let name_from = span_from + blank + 1;
        assert(table@.subrange(name_from as int, span_to as int) =~= line@.subrange(
            blank + 1,
            line@.len() as int,
        ));

        if address == function_address {
            return Ok((copy_of(table, name_from, span_to), 0));
        }
        if i == symbols_table_lines.len() - 1 {
            if function_address < address {
                return Err(VfsError::NotFound);
            }
            return Ok((copy_of(table, name_from, span_to), function_address - address));
        }
        if i == 0 {
            if function_address < address {
                return Err(VfsError::NotFound);
            }
            previous_symbol = Some((name_from, span_to, address));
            i += 1;
            continue ;
        }
        match previous_symbol {
            Some((from, to, prev_address)) => {
                if function_address > prev_address && function_address < address {
                    // function is previous symbol
                    return Ok((copy_of(table, from, to), address - prev_address));
                }
            },
            None => {},
        }
        previous_symbol = Some((name_from, span_to, address));
        i += 1;
    }
    Err(VfsError::NotFound)
}

/// The bytes of the path of the table of symbols: `/symbols.table`.
pub open spec fn symbols_path() -> Seq<u8> {
    seq![
        0x2Fu8, 0x73, 0x79, 0x6D, 0x62, 0x6F, 0x6C, 0x73, 0x2E, 0x74, 0x61, 0x62, 0x6C, 0x65,
    ]
}

/// The symbol that the address `function_address` belongs to, and how far
/// into the symbol it lies, going by the file `/symbols.table` of the
/// namespace `ctx`.
///
/// The path is resolved (see [`VfsContext::resolution`]), and the file is
/// opened, read from its first byte to its last, and closed again; what it
/// holds is read as [`spec_find_symbol`] says. An error of the file system
/// is passed on as it is.
pub fn get_function_name<F: FsOps>(ctx: &mut VfsContext<F>, function_address: u64) -> (r: Result<
    (Vec<u8>, u64),
    VfsError,
>) where F::Node: VNodeOperations<F>
    requires
        old(ctx).wf(),
    ensures
        final(ctx).wf(),
        final(ctx).same_mounts(old(ctx)),
        !old(ctx).has_root() ==> r is Err && r->Err_0 == VfsError::NotFound,
        exists|resolved: VfsContext<F>, found: Result<usize, VfsError>|
            #![trigger resolved.resolution(old(ctx), segments(symbols_path()), found)]
            resolved.resolution(old(ctx), segments(symbols_path()), found) && (found is Err ==> r
                is Err && r->Err_0 == found->Err_0 && *final(ctx) == resolved),
        r is Ok ==> exists|table: Seq<u8>| #[trigger]
            spec_find_symbol(table, function_address) == Ok::<(Seq<u8>, u64), VfsError>(
                (r->Ok_0.0@, r->Ok_0.1),
            ),
{
    let path: [u8; 14] = [
        0x2F, 0x73, 0x79, 0x6D, 0x62, 0x6F, 0x6C, 0x73, 0x2E, 0x74, 0x61, 0x62, 0x6C, 0x65,
    ];
    let ghost start = *ctx;
    assert(path@ =~= symbols_path());
    let found = open_path(ctx, path.as_slice());
    let ghost opened = *ctx;
    assert(opened.resolution(&start, segments(symbols_path()), found));
    let symbols_fd = found?;
    let mut file = match ctx.open_node(symbols_fd, 0, UserCred { uid: 0, gid: 0 }) {
        Ok(file) => file,
        Err(e) => {
            proof {
                lemma_same_mounts_chain(&start, &opened, ctx);
            }
            return Err(e);
        },
    };
    let ghost ready = *ctx;
    let symbols_table_bytes = file.read(ctx, 0, 0, 0);
    let ghost read = *ctx;
    let closed = file.close(ctx);
    proof {
        lemma_same_mounts_chain(&start, &opened, &ready);
        lemma_same_mounts_chain(&start, &ready, &read);
        lemma_same_mounts_chain(&start, &read, ctx);
    }
    let symbols_table_bytes = symbols_table_bytes?;
    closed?;
    let r = find_symbol(symbols_table_bytes.as_slice(), function_address);
    proof {
        if r is Ok {
            assert(spec_find_symbol(symbols_table_bytes@, function_address) == Ok::<
                (Seq<u8>, u64),
                VfsError,
            >((r->Ok_0.0@, r->Ok_0.1)));
        }
    }
    r
}

/// The mounts stay the same over two steps that each leave them the same.
proof fn lemma_same_mounts_chain<F: FsOps>(
    first: &VfsContext<F>,
    second: &VfsContext<F>,
    third: &VfsContext<F>,
) where F::Node: VNodeOperations<F>
    requires
        second.same_mounts(first),
        third.same_mounts(second) || third.same_shape(second),
    ensures
        third.same_mounts(first),
{
    assert forall|m: int| 0 <= m < third.mounts.len() implies (#[trigger] third.mounts[m]).same_mount(
        &first.mounts[m],
    ) by {
        assert(third.mounts[m].same_mount(&second.mounts[m]));
        assert(second.mounts[m].same_mount(&first.mounts[m]));
    }
}

} // verus!
