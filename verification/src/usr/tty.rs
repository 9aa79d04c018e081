//! The text console: the cursor, its colours, and the line being typed.

use crate::libs::bytes::bytes_eq;
use crate::libs::text::{
    find_byte, index_of, parse_u64, spec_parse_u64, str_from_utf8, trim, trimmed,
};
use crate::mem::{label_of, ByteLabelKind, LabelBytes};
use vstd::prelude::*;
use vstd::string::StringSliceAdditionalSpecFns;
use vstd::utf8::valid_utf8;

verus! {

/// The colour that text is drawn in unless something else is asked for.
pub const DEFAULT_FG: u32 = 0xbababa;

/// The colour that text is drawn on unless something else is asked for.
pub const DEFAULT_BG: u32 = 0x000000;

/// Where the next character goes, and in which colours.
#[derive(Clone, Copy, Debug, PartialEq, Eq, Structural)]
pub struct Cursor {
    pub cx: u16,
    pub cy: u16,
    pub fg: u32,
    pub bg: u32,
}

impl Cursor {
    /// The cursor at the top left, in the default colours.
    pub fn new() -> (r: Self)
        ensures
            r == (Cursor { cx: 0, cy: 0, fg: DEFAULT_FG, bg: DEFAULT_BG }),
    {
        Cursor { cx: 0, cy: 0, fg: DEFAULT_FG, bg: DEFAULT_BG }
    }

    /// Puts the cursor at column `new_cx` of row `new_cy`.
    pub fn set_pos(&mut self, new_cx: u16, new_cy: u16)
        ensures
            *final(self) == (Cursor { cx: new_cx, cy: new_cy, ..*old(self) }),
    {
        self.cx = new_cx;
        self.cy = new_cy;
    }

    /// Where the cursor stands after a step to the right on a screen of
    /// `columns` columns: one column on, or at the start of the next row
    /// where it stood in the last column.
    pub open spec fn right_of(self, columns: u16) -> Cursor {
        if self.cx + 1 == columns {
            Cursor { cx: 0, cy: (self.cy + 1) as u16, ..self }
        } else {
            Cursor { cx: (self.cx + 1) as u16, ..self }
        }
    }

    /// Where the cursor stands after a step to the left on a screen of
    /// `columns` columns: one column back, or at the end of the row above
    /// where it stood in the first column.
    pub open spec fn left_of(self, columns: u16) -> Cursor {
        if self.cx == 0 {
            Cursor { cx: (columns - 1) as u16, cy: (self.cy - 1) as u16, ..self }
        } else {
            Cursor { cx: (self.cx - 1) as u16, ..self }
        }
    }

    /// Moves the cursor one step to the right on a screen of `columns`
    /// columns. At the end of the last row that can be counted the cursor
    /// stays where it is.
    pub fn move_right(&mut self, columns: u16)
        ensures
            *final(self) == if old(self).cx as int + 1 == columns as int {
                if old(self).cy < u16::MAX {
                    old(self).right_of(columns)
                } else {
                    *old(self)
                }
            } else if old(self).cx < u16::MAX {
                old(self).right_of(columns)
            } else {
                *old(self)
            },
    {
        if columns > 0 && self.cx == columns - 1 {
            if self.cy < u16::MAX {
                self.cy += 1;
                self.cx = 0;
            }
        } else if self.cx < u16::MAX {
            self.cx += 1;
        }
    }

    /// Moves the cursor one step to the left on a screen of `columns`
    /// columns. At the start of the first row the cursor stays where it is.
    pub fn move_left(&mut self, columns: u16)
        ensures
            *final(self) == if old(self).cx == 0 {
                if old(self).cy > 0 && columns > 0 {
                    old(self).left_of(columns)
                } else {
                    *old(self)
                }
            } else {
                old(self).left_of(columns)
            },
    {
        if self.cx == 0 {
            if self.cy > 0 && columns > 0 {
                self.cx = columns - 1;
                self.cy -= 1;
            }
        } else {
            self.cx -= 1;
        }
    }

    /// Sets the colour that text is drawn in.
    pub fn set_fg(&mut self, new_fg: u32)
        ensures
            *final(self) == (Cursor { fg: new_fg, ..*old(self) }),
    {
        self.fg = new_fg;
    }

    /// Sets the colour that text is drawn on.
    pub fn set_bg(&mut self, new_bg: u32)
        ensures
            *final(self) == (Cursor { bg: new_bg, ..*old(self) }),
    {
        self.bg = new_bg;
    }

    /// Sets both colours.
    pub fn set_color(&mut self, new_fg: u32, new_bg: u32)
        ensures
            *final(self) == (Cursor { fg: new_fg, bg: new_bg, ..*old(self) }),
    {
        self.fg = new_fg;
        self.bg = new_bg;
    }
}

/// The colour that the colour number `color` of an escape sequence stands
/// for: 0 to 7 are the dim colours, 60 to 67 the bright ones, and anything
/// else is black.
pub open spec fn spec_color_to_hex(color: u8) -> u32 {
    if color == 1 {
        0xCD0000
    } else if color == 2 {
        0x00CD00
    } else if color == 3 {
        0xCDCD00
    } else if color == 4 {
        0x0000EE
    } else if color == 5 {
        0xCD00CD
    } else if color == 6 {
        0x00CDCD
    } else if color == 7 {
        0xBABABA
    } else if color == 60 {
        0x555555
    } else if color == 61 {
        0xFF0000
    } else if color == 62 {
        0x00FF00
    } else if color == 63 {
        0xFFFF00
    } else if color == 64 {
        0x5C5CFF
    } else if color == 65 {
        0xFF00FF
    } else if color == 66 {
        0x00FFFF
    } else if color == 67 {
        0xFFFFFF
    } else {
        0x000000
    }
}

/// The colour that a colour number stands for; see [`spec_color_to_hex`].
pub fn color_to_hex(color: u8) -> (r: u32)
    ensures
        r == spec_color_to_hex(color),
{
    match color {
        0 => 0x000000,
        1 => 0xCD0000,
        2 => 0x00CD00,
        3 => 0xCDCD00,
        4 => 0x0000EE,
        5 => 0xCD00CD,
        6 => 0x00CDCD,
        7 => 0xBABABA,
        60 => 0x555555,
        61 => 0xFF0000,
        62 => 0x00FF00,
        63 => 0xFFFF00,
        64 => 0x5C5CFF,
        65 => 0xFF00FF,
        66 => 0x00FFFF,
        67 => 0xFFFFFF,
        _ => 0x000000,
    }
}

/// The cursor after the colour code `code` of an escape sequence: 30 to 37
/// and 90 to 97 set the colour of the text, 40 to 47 and 100 to 107 that of
/// its background, and any other code changes nothing.
pub open spec fn with_color_code(cursor: Cursor, code: u8) -> Cursor {
    if 30 <= code <= 37 || 90 <= code <= 97 {
        Cursor { fg: spec_color_to_hex((code - 30) as u8), ..cursor }
    } else if 40 <= code <= 47 || 100 <= code <= 107 {
        Cursor { bg: spec_color_to_hex((code - 40) as u8), ..cursor }
    } else {
        cursor
    }
}

impl Cursor {
    /// Applies the colour code `code` of an escape sequence; see
    /// [`with_color_code`].
    pub fn apply_color_code(&mut self, code: u8)
        ensures
            *final(self) == with_color_code(*old(self), code),
    {
        if (30 <= code && code <= 37) || (90 <= code && code <= 97) {
            self.set_fg(color_to_hex(code - 30));
        } else if (40 <= code && code <= 47) || (100 <= code && code <= 107) {
            self.set_bg(color_to_hex(code - 40));
        }
    }
}

/// The bytes of the line that is being typed.
pub struct InputBuffer {
    pub buffer: Vec<u8>,
}

impl InputBuffer {
    /// An empty line.
    pub fn new() -> (r: Self)
        ensures
            r.buffer@.len() == 0,
    {
        InputBuffer { buffer: Vec::new() }
    }

    /// Empties the line.
    pub fn clear(&mut self)
        ensures
            final(self).buffer@ == Seq::<u8>::empty(),
    {
        self.buffer.clear();
    }

    /// Adds a byte at the end of the line.
    pub fn push(&mut self, value: u8)
        ensures
            final(self).buffer@ == old(self).buffer@.push(value),
    {
        self.buffer.push(value);
    }

    /// Takes the last byte off the line, if there is one.
    pub fn pop(&mut self)
        ensures
            final(self).buffer@ == if old(self).buffer@.len() > 0 {
                old(self).buffer@.drop_last()
            } else {
                old(self).buffer@
            },
    {
        if self.buffer.len() > 0 {
            self.buffer.pop();
        }
    }

    /// The line as a string; the empty string where the bytes are not valid
    /// UTF-8.
    pub fn as_str(&self) -> (r: &str)
        ensures
            r.spec_bytes() == if valid_utf8(self.buffer@) {
                self.buffer@
            } else {
                Seq::<u8>::empty()
            },
    {
        match str_from_utf8(self.buffer.as_slice()) {
            Some(s) => s,
            None => {
                let empty = "";
                proof {
                    reveal_strlit("");
                    vstd::utf8::encode_utf8_decode_utf8(empty@);
                }
                assert(empty.spec_bytes() =~= Seq::<u8>::empty());
                empty
            },
        }
    }
}

/// The byte that an escaped byte stands for: `n` for a line feed, `t` for a
/// tab, `0` for a zero byte, and any other byte for itself.
pub open spec fn spec_escaped(next_char: u8) -> u8 {
    if next_char == 0x6E {
        0x0A
    } else if next_char == 0x74 {
        0x09
    } else if next_char == 0x30 {
        0x00
    } else {
        next_char
    }
}

/// The byte that an escaped byte stands for; see [`spec_escaped`].
pub fn parse_escaped_char(next_char: u8) -> (r: u8)
    ensures
        r == spec_escaped(next_char),
{
    let escaped = match next_char {
        0x6E => 0x0A,
        0x74 => 0x09,
        0x30 => 0x00,
        _ => next_char,
    };
    escaped
}

pub const BLANK: u8 = 0x20;

pub const DOUBLE_QUOTE: u8 = 0x22;

pub const SINGLE_QUOTE: u8 = 0x27;

pub const BACKSLASH: u8 = 0x5C;

/// The rest of a quoted word, and where the input goes on after it.
///
/// The word ends with the quote that opened it, or with the input. A
/// backslash makes the byte after it stand for what [`spec_escaped`] says;
/// a backslash at the end of the input stands for nothing. The other kind
/// of quote is a byte like any other.
pub open spec fn quoted_from(s: Seq<u8>, i: int, quote: u8, word: Seq<u8>) -> (Seq<u8>, int)
    decreases s.len() - i,
{
    if i < 0 || i >= s.len() {
        (word, i)
    } else if s[i] == BACKSLASH {
        if i + 1 < s.len() {
            quoted_from(s, i + 2, quote, word.push(spec_escaped(s[i + 1])))
        } else {
            (word, i + 1)
        }
    } else if s[i] == quote {
        (word, i + 1)
    } else {
        quoted_from(s, i + 1, quote, word.push(s[i]))
    }
}

/// The rest of a word that is not quoted, and where the input goes on
/// after it.
///
/// The word ends before a blank or a quote, or with the input. A backslash
/// makes the byte after it stand for what [`spec_escaped`] says.
pub open spec fn bare_from(s: Seq<u8>, i: int, word: Seq<u8>) -> (Seq<u8>, int)
    decreases s.len() - i,
{
    if i < 0 || i >= s.len() {
        (word, i)
    } else if s[i] == BLANK || s[i] == DOUBLE_QUOTE || s[i] == SINGLE_QUOTE {
        (word, i)
    } else if s[i] == BACKSLASH {
        if i + 1 < s.len() {
            bare_from(s, i + 2, word.push(spec_escaped(s[i + 1])))
        } else {
            (word, i + 1)
        }
    } else {
        bare_from(s, i + 1, word.push(s[i]))
    }
}

/// The words of the input from byte `i` on.
///
/// Blanks between words are skipped. A quote opens a quoted word. Anything
/// else opens a word that is not quoted, whose first byte belongs to it
/// whatever it is.
pub open spec fn words_from(s: Seq<u8>, i: int) -> Seq<Seq<u8>>
    decreases s.len() - i,
{
    if i < 0 || i >= s.len() {
        Seq::empty()
    } else if s[i] == BLANK {
        words_from(s, i + 1)
    } else {
        let (word, next) = if s[i] == DOUBLE_QUOTE || s[i] == SINGLE_QUOTE {
            quoted_from(s, i + 1, s[i], Seq::empty())
        } else if s[i] == BACKSLASH {
            bare_from(s, i, Seq::empty())
        } else {
            bare_from(s, i + 1, seq![s[i]])
        };
        if next <= i || next > s.len() {
            seq![word]
        } else {
            seq![word] + words_from(s, next)
        }
    }
}

/// The words of a command line: those of the line without the white space
/// at its ends.
pub open spec fn words(input: Seq<u8>) -> Seq<Seq<u8>> {
    words_from(trimmed(input), 0)
}

/// The byte strings that `v` holds.
pub open spec fn views(v: Seq<Vec<u8>>) -> Seq<Seq<u8>> {
    Seq::new(v.len(), |i: int| v[i]@)
}

/// Reads the rest of a quoted word; see [`quoted_from`].
fn read_quoted(s: &[u8], start: usize, quote: u8) -> (r: (Vec<u8>, usize))
    requires
        start <= s.len(),
    ensures
        (r.0@, r.1 as int) == quoted_from(s@, start as int, quote, Seq::empty()),
        start <= r.1 <= s.len(),
{
    let mut arg: Vec<u8> = Vec::new();
    let mut i: usize = start;
    while i < s.len()
        invariant
            start <= i <= s.len(),
            quoted_from(s@, start as int, quote, Seq::empty()) == quoted_from(
                s@,
                i as int,
                quote,
                arg@,
            ),
        decreases s.len() - i,
    {
        let ch = s[i];
        if ch == BACKSLASH {
            if i + 1 < s.len() {
                arg.push(parse_escaped_char(s[i + 1]));
                i += 2;
            } else {
                return (arg, i + 1);
            }
        } else if ch == quote {
            return (arg, i + 1);
        } else {
            arg.push(ch);
            i += 1;
        }
    }
    (arg, i)
}

/// Reads the rest of a word that is not quoted; see [`bare_from`].
fn read_bare(s: &[u8], start: usize, first: Vec<u8>) -> (r: (Vec<u8>, usize))
    requires
        start <= s.len(),
    ensures
        (r.0@, r.1 as int) == bare_from(s@, start as int, first@),
        start <= r.1 <= s.len(),
{
    let mut arg = first;
    let mut i: usize = start;
    while i < s.len()
        invariant
            start <= i <= s.len(),
            bare_from(s@, start as int, first@) == bare_from(s@, i as int, arg@),
        decreases s.len() - i,
    {
        let ch = s[i];
        if ch == BLANK || ch == DOUBLE_QUOTE || ch == SINGLE_QUOTE {
            return (arg, i);
        } else if ch == BACKSLASH {
            if i + 1 < s.len() {
                arg.push(parse_escaped_char(s[i + 1]));
                i += 2;
            } else {
                return (arg, i + 1);
            }
        } else {
            arg.push(ch);
            i += 1;
        }
    }
    (arg, i)
}

/// Takes a command line apart: the first word is the command and the
/// others are its arguments; see [`words`]. A line without words has the
/// empty command.
pub fn parse_input(input: &[u8]) -> (r: (Vec<u8>, Vec<Vec<u8>>))
    ensures
        words(input@).len() == 0 ==> r.0@.len() == 0 && r.1@.len() == 0,
        words(input@).len() > 0 ==> r.0@ == words(input@)[0] && views(r.1@) == words(input@).skip(
            1,
        ),
{
    let mut command: Vec<u8> = Vec::new();
    let mut args: Vec<Vec<u8>> = Vec::new();
    let s = trim(input);

    let mut i: usize = 0;
    let mut pos: usize = 0;
    let ghost mut sofar: Seq<Seq<u8>> = Seq::empty();
    proof {
        assert(sofar + words_from(s@, 0) =~= words_from(s@, 0));
    }
    while pos < s.len()
        invariant
            pos <= s.len(),
            s@ == trimmed(input@),
            words(input@) == sofar + words_from(s@, pos as int),
            i == 0 <==> sofar.len() == 0,
            sofar.len() == 0 ==> command@.len() == 0 && args@.len() == 0,
            sofar.len() > 0 ==> command@ == sofar[0] && views(args@) == sofar.skip(1),
        decreases s.len() - pos,
    {
        let ch = s[pos];
        if ch == BLANK {
            pos += 1;
            continue ;
        }
        let (arg, next) = if ch == DOUBLE_QUOTE || ch == SINGLE_QUOTE {
            read_quoted(s, pos + 1, ch)
        } else if ch == BACKSLASH {
            read_bare(s, pos, Vec::new())
        } else {
            let mut first: Vec<u8> = Vec::new();
            first.push(ch);
            assert(first@ =~= seq![ch]);
            read_bare(s, pos + 1, first)
        };
        proof {
            let rest = if next <= pos || next > s.len() {
                Seq::<Seq<u8>>::empty()
            } else {
                words_from(s@, next as int)
            };
            assert(sofar + (seq![arg@] + rest) =~= sofar.push(arg@) + rest);
            assert(seq![arg@] + Seq::<Seq<u8>>::empty() =~= seq![arg@]);
            if sofar.len() > 0 {
                assert(sofar.push(arg@).skip(1) =~= sofar.skip(1).push(arg@));
                assert(views(args@.push(arg)) =~= views(args@).push(arg@));
            } else {
                assert(sofar.push(arg@).skip(1) =~= Seq::<Seq<u8>>::empty());
                assert(views(args@) =~= Seq::<Seq<u8>>::empty());
            }
            sofar = sofar.push(arg@);
        }
        if i == 0 {
            command = arg;
        } else {
            args.push(arg);
        }
        i = 1;
        if next <= pos {
            proof {
                assert(sofar + Seq::<Seq<u8>>::empty() =~= sofar);
            }
            assert(words(input@) == sofar);
            assert(sofar.skip(1) =~= views(args@));
            return (command, args);
        }
        pos = next;
    }
    proof {
        assert(sofar + Seq::<Seq<u8>>::empty() =~= sofar);
    }
    (command, args)
}

/// The address that `input` spells: `0x` and a number in base 16; `None`
/// where `input` does not begin with `0x` or the rest is no number that
/// fits 64 bits.
pub open spec fn spec_memory_address(input: Seq<u8>) -> Option<u64> {
    if input.len() >= 2 && input[0] == 0x30 && input[1] == 0x78 {
        spec_parse_u64(input.skip(2), 16)
    } else {
        None
    }
}

/// Reads a memory address; see [`spec_memory_address`].
pub fn parse_memory_address(input: &[u8]) -> (r: Option<u64>)
    ensures
        r == spec_memory_address(input@),
{
    if input.len() >= 2 && input[0] == 0x30 && input[1] == 0x78 {
        let digits = vstd::slice::slice_subrange(input, 2, input.len());
        assert(digits@ =~= input@.skip(2));
        parse_u64(digits, 16)
    } else {
        None
    }
}

/// A number of bytes in the largest unit of which there is at least one,
/// and the name of the unit.
pub fn label_units(bytes: usize) -> (r: (usize, &'static str))
    ensures
        r.0 == label_of(bytes).count,
        r.1@ == match label_of(bytes).byte_label {
            ByteLabelKind::GIB => "GiB"@,
            ByteLabelKind::MIB => "MiB"@,
            ByteLabelKind::KIB => "KiB"@,
            ByteLabelKind::BYTE => "Bytes"@,
        },
{
    let label = bytes.label_bytes();
    match label.byte_label {
        ByteLabelKind::GIB => (label.count, "GiB"),
        ByteLabelKind::MIB => (label.count, "MiB"),
        ByteLabelKind::KIB => (label.count, "KiB"),
        ByteLabelKind::BYTE => (label.count, "Bytes"),
    }
}

/// A character to draw: which, where, and in which colours.
#[derive(Clone, Copy, Debug, PartialEq, Eq, Structural)]
pub struct Glyph {
    pub character: u8,
    pub cx: u16,
    pub cy: u16,
    pub fg: u32,
    pub bg: u32,
}

/// The byte that opens an escape sequence.
pub const ESCAPE: u8 = 0x00;

/// The byte that separates the colour codes of an escape sequence.
pub const SEMICOLON: u8 = 0x3B;

/// The colour code that the bytes `piece` spell: a number in base 10 that
/// fits 8 bits.
pub open spec fn color_code(piece: Seq<u8>) -> Option<u8> {
    match spec_parse_u64(piece, 10) {
        Some(v) => if v <= 255 {
            Some(v as u8)
        } else {
            None
        },
        None => None,
    }
}

/// The cursor after the colour codes of an escape sequence have been
/// applied, from byte `from` of the sequence on. The codes are separated
/// by semicolons; what is no code between two semicolons is passed over.
pub open spec fn with_color_codes(cursor: Cursor, codes: Seq<u8>, from: int) -> Cursor
    decreases codes.len() - from,
{
    if from < 0 || from > codes.len() {
        cursor
    } else {
        let end = index_of(codes, SEMICOLON, from);
        let next = match color_code(codes.subrange(from, end)) {
            Some(code) => with_color_code(cursor, code),
            None => cursor,
        };
        if end < from || end >= codes.len() {
            next
        } else {
            with_color_codes(next, codes, end + 1)
        }
    }
}

/// What the console is in the middle of.
pub struct Console {
    pub cursor: Cursor,
    /// Whether an escape sequence has begun and not ended.
    pub in_escape_sequence: bool,
    /// The colour codes of the escape sequence, as far as they have come.
    pub color_code_buffer: Vec<u8>,
}

/// What a console is in the middle of.
pub struct ConsoleView {
    pub cursor: Cursor,
    pub in_escape_sequence: bool,
    pub color_code_buffer: Seq<u8>,
}

impl View for Console {
    type V = ConsoleView;

    open spec fn view(&self) -> ConsoleView {
        ConsoleView {
            cursor: self.cursor,
            in_escape_sequence: self.in_escape_sequence,
            color_code_buffer: self.color_code_buffer@,
        }
    }
}

/// The cursor at the start of the next row; at the last row that can be
/// counted it stays in its row.
pub open spec fn next_row(cursor: Cursor) -> Cursor {
    Cursor {
        cx: 0,
        cy: if cursor.cy < u16::MAX {
            (cursor.cy + 1) as u16
        } else {
            cursor.cy
        },
        ..cursor
    }
}

/// The cursor one step to the right; see [`Cursor::move_right`].
pub open spec fn stepped_right(cursor: Cursor, columns: u16) -> Cursor {
    if cursor.cx as int + 1 == columns as int {
        if cursor.cy < u16::MAX {
            cursor.right_of(columns)
        } else {
            cursor
        }
    } else if cursor.cx < u16::MAX {
        cursor.right_of(columns)
    } else {
        cursor
    }
}

/// The cursor one step to the left; see [`Cursor::move_left`].
pub open spec fn stepped_left(cursor: Cursor, columns: u16) -> Cursor {
    if cursor.cx == 0 {
        if cursor.cy > 0 && columns > 0 {
            cursor.left_of(columns)
        } else {
            cursor
        }
    } else {
        cursor.left_of(columns)
    }
}

/// What one byte does to the console, and what it makes it draw.
///
/// A zero byte opens an escape sequence. Inside one, digits and semicolons
/// are colour codes, `m` ends the sequence and applies the codes, `[` drops
/// the codes read so far, and any other byte ends the sequence without
/// effect. Outside one, a line feed moves the cursor to the next row, and
/// any other byte is drawn at the cursor, which then moves to the right.
pub open spec fn console_step(console: ConsoleView, character: u8, columns: u16) -> (
    ConsoleView,
    Option<Glyph>,
) {
    if console.in_escape_sequence {
        if character == 0x6D {
            (
                ConsoleView {
                    cursor: with_color_codes(console.cursor, console.color_code_buffer, 0),
                    in_escape_sequence: false,
                    color_code_buffer: Seq::empty(),
                },
                None,
            )
        } else if (0x30 <= character <= 0x39) || character == SEMICOLON {
            (
                ConsoleView {
                    color_code_buffer: console.color_code_buffer.push(character),
                    ..console
                },
                None,
            )
        } else if character == 0x5B {
            (ConsoleView { color_code_buffer: Seq::empty(), ..console }, None)
        } else {
            (
                ConsoleView {
                    in_escape_sequence: false,
                    color_code_buffer: Seq::empty(),
                    ..console
                },
                None,
            )
        }
    } else if character == ESCAPE {
        (ConsoleView { in_escape_sequence: true, ..console }, None)
    } else if character == 0x0A {
        (ConsoleView { cursor: next_row(console.cursor), ..console }, None)
    } else {
        (
            ConsoleView { cursor: stepped_right(console.cursor, columns), ..console },
            Some(
                Glyph {
                    character,
                    cx: console.cursor.cx,
                    cy: console.cursor.cy,
                    fg: console.cursor.fg,
                    bg: console.cursor.bg,
                },
            ),
        )
    }
}

/// The console after the bytes of `string` from `i` on, and all that was
/// drawn, after `drawn`.
pub open spec fn console_run(
    console: ConsoleView,
    string: Seq<u8>,
    i: int,
    columns: u16,
    drawn: Seq<Glyph>,
) -> (ConsoleView, Seq<Glyph>)
    decreases string.len() - i,
{
    if i < 0 || i >= string.len() {
        (console, drawn)
    } else {
        let (next, glyph) = console_step(console, string[i], columns);
        console_run(
            next,
            string,
            i + 1,
            columns,
            match glyph {
                Some(g) => drawn.push(g),
                None => drawn,
            },
        )
    }
}

impl Cursor {
    /// Applies the colour codes of an escape sequence; see
    /// [`with_color_codes`].
    pub fn apply_color_codes(&mut self, codes: &[u8])
        ensures
            *final(self) == with_color_codes(*old(self), codes@, 0),
    {
        let mut from: usize = 0;
        loop
            invariant
                from <= codes.len(),
                with_color_codes(*old(self), codes@, 0) == with_color_codes(
                    *self,
                    codes@,
                    from as int,
                ),
            decreases codes.len() - from,
        {
            let end = find_byte(codes, SEMICOLON, from);
            let piece = vstd::slice::slice_subrange(codes, from, end);
            match parse_u64(piece, 10) {
                Some(v) => {
                    if v <= 255 {
                        self.apply_color_code(v as u8);
                    }
                },
                None => {},
            }
            if end >= codes.len() {
                return ;
            }
            from = end + 1;
        }
    }
}

impl Console {
    /// A console with the cursor at the top left, in the default colours.
    pub fn new() -> (r: Self)
        ensures
            r@ == (ConsoleView {
                cursor: Cursor { cx: 0, cy: 0, fg: DEFAULT_FG, bg: DEFAULT_BG },
                in_escape_sequence: false,
                color_code_buffer: Seq::empty(),
            }),
    {
        Console { cursor: Cursor::new(), in_escape_sequence: false, color_code_buffer: Vec::new() }
    }

    /// Takes one byte of output; see [`console_step`].
    pub fn put(&mut self, character: u8, columns: u16) -> (r: Option<Glyph>)
        ensures
            (final(self)@, r) == console_step(old(self)@, character, columns),
    {
        if self.in_escape_sequence {
            if character == 0x6D {
                self.in_escape_sequence = false;

                self.cursor.apply_color_codes(self.color_code_buffer.as_slice());

                self.color_code_buffer.clear();
            } else if (0x30 <= character && character <= 0x39) || character == SEMICOLON {
                self.color_code_buffer.push(character);
            } else {
                if character == 0x5B {
                    // official start of the escape sequence
                    self.color_code_buffer.clear();
                    return None;
                }
                self.in_escape_sequence = false;
                self.color_code_buffer.clear();
            }
            return None;
        }
        if character == ESCAPE {
            self.in_escape_sequence = true;
            return None;
        }
        if character == 0x0A {
            let row = if self.cursor.cy < u16::MAX {
                self.cursor.cy + 1
            } else {
                self.cursor.cy
            };
            self.cursor.set_pos(0, row);
            None
        } else {
            let glyph = Glyph {
                character,
                cx: self.cursor.cx,
                cy: self.cursor.cy,
                fg: self.cursor.fg,
                bg: self.cursor.bg,
            };
            self.cursor.move_right(columns);
            Some(glyph)
        }
    }
}

/// What writing `string` leaves of the cursor `cursor`: the console starts
/// outside any escape sequence, and when the string is written the colours
/// are the default colours again.
pub open spec fn spec_puts(cursor: Cursor, string: Seq<u8>, columns: u16) -> (Cursor, Seq<Glyph>) {
    let (console, drawn) = console_run(
        ConsoleView { cursor, in_escape_sequence: false, color_code_buffer: Seq::empty() },
        string,
        0,
        columns,
        Seq::empty(),
    );
    (Cursor { fg: DEFAULT_FG, bg: DEFAULT_BG, ..console.cursor }, drawn)
}

/// Writes `string` to a screen of `columns` columns: moves the cursor, and
/// returns the characters to draw, in order; see [`spec_puts`].
// Uses a stripped down version of ANSI color codes:
// \033[FG;BGm
pub fn puts(cursor: &mut Cursor, string: &[u8], columns: u16) -> (r: Vec<Glyph>)
    ensures
        (*final(cursor), r@) == spec_puts(*old(cursor), string@, columns),
{
    let mut console = Console {
        cursor: *cursor,
        in_escape_sequence: false,
        color_code_buffer: Vec::new(),
    };
    let mut drawn: Vec<Glyph> = Vec::new();
    let ghost start = console@;

    let mut i: usize = 0;
    while i < string.len()
        invariant
            i <= string.len(),
            console_run(start, string@, 0, columns, Seq::empty()) == console_run(
                console@,
                string@,
                i as int,
                columns,
                drawn@,
            ),
        decreases string.len() - i,
    {
        match console.put(string[i], columns) {
            Some(glyph) => {
                drawn.push(glyph);
            },
            None => {},
        }
        i += 1;
    }
    *cursor = console.cursor;
    cursor.set_color(DEFAULT_FG, DEFAULT_BG);
    drawn
}

/// What the shell is to do.
#[derive(Clone, Copy, Debug, PartialEq, Eq, Structural)]
pub enum ShellAction {
    /// Show how much memory is handed out, free, and there in all.
    MemStat,
    /// Show a message.
    Say(ShellMessage),
    /// Allocate `size` bytes, aligned to 16.
    Allocate { size: usize },
    /// Deallocate the `size` bytes at `address`.
    Deallocate { address: u64, size: usize },
    /// Show the 32-bit word at `address`.
    ReadWord { address: u64 },
    /// Show the memory map.
    MemMap,
    /// Write the first argument, or nothing where there is none, and a
    /// line feed.
    Echo,
    /// Store `value` at `address`.
    Poke { address: u64, value: u32 },
    /// Show the command and its arguments.
    ShowInput,
}

/// What the shell has to say.
#[derive(Clone, Copy, Debug, PartialEq, Eq, Structural)]
pub enum ShellMessage {
    AllocSizeRequired,
    AllocHelp,
    NotANumber,
    Malformed,
    TestAddressRequired,
    NotAnAddress,
    PokeUsage,
    PokeNotANumber,
    PokeNotAnAddress,
}

/// The number that `s` spells in base 10, where it fits a `usize`.
pub open spec fn spec_parse_usize(s: Seq<u8>) -> Option<usize> {
    match spec_parse_u64(s, 10) {
        Some(v) => if v <= usize::MAX {
            Some(v as usize)
        } else {
            None
        },
        None => None,
    }
}

/// Reads a number in base 10; see [`spec_parse_usize`].
pub fn parse_usize(s: &[u8]) -> (r: Option<usize>)
    ensures
        r == spec_parse_usize(s@),
{
    match parse_u64(s, 10) {
        Some(v) => if v <= usize::MAX as u64 {
            Some(v as usize)
        } else {
            None
        },
        None => None,
    }
}

pub open spec fn memstat() -> Seq<u8> {
    seq![0x6Du8, 0x65, 0x6D, 0x73, 0x74, 0x61, 0x74]
}

pub open spec fn memalloc() -> Seq<u8> {
    seq![0x6Du8, 0x65, 0x6D, 0x61, 0x6C, 0x6C, 0x6F, 0x63]
}

pub open spec fn memtest() -> Seq<u8> {
    seq![0x6Du8, 0x65, 0x6D, 0x74, 0x65, 0x73, 0x74]
}

pub open spec fn memmap() -> Seq<u8> {
    seq![0x6Du8, 0x65, 0x6D, 0x6D, 0x61, 0x70]
}

pub open spec fn echo() -> Seq<u8> {
    seq![0x65u8, 0x63, 0x68, 0x6F]
}

pub open spec fn poke() -> Seq<u8> {
    seq![0x70u8, 0x6F, 0x6B, 0x65]
}

pub open spec fn long_help() -> Seq<u8> {
    seq![0x2Du8, 0x2D, 0x68, 0x65, 0x6C, 0x70]
}

pub open spec fn short_help() -> Seq<u8> {
    seq![0x2Du8, 0x68]
}

/// What the arguments of `memalloc` from `i` on make of a request to
/// deallocate: an argument that begins with `-` is passed over, one that
/// begins with `0x` is the address, and any other is the size. The last
/// address and the last size count. An address or a size that does not
/// read ends the request with a message.
pub open spec fn dealloc_request(args: Seq<Seq<u8>>, i: int, address: u64, size: usize) -> ShellAction
    decreases args.len() - i,
{
    if i < 0 || i >= args.len() {
        ShellAction::Deallocate { address, size }
    } else if args[i].len() > 0 && args[i][0] == 0x2D {
        dealloc_request(args, i + 1, address, size)
    } else if args[i].len() >= 2 && args[i][0] == 0x30 && args[i][1] == 0x78 {
        match spec_memory_address(args[i]) {
            Some(a) => dealloc_request(args, i + 1, a, size),
            None => ShellAction::Say(ShellMessage::NotAnAddress),
        }
    } else {
        match spec_parse_usize(args[i]) {
            Some(n) => dealloc_request(args, i + 1, address, n),
            None => ShellAction::Say(ShellMessage::NotANumber),
        }
    }
}

/// What the shell does for the command `command` with the arguments
/// `args`, in order.
pub open spec fn shell_actions(command: Seq<u8>, args: Seq<Seq<u8>>) -> Seq<ShellAction> {
    if command.len() == 0 {
        Seq::empty()
    } else if command == memstat() {
        seq![ShellAction::MemStat]
    } else if command == memalloc() {
        if args.len() == 0 {
            seq![ShellAction::Say(ShellMessage::AllocSizeRequired)]
        } else if args[0] == long_help() || args[0] == short_help() {
            seq![ShellAction::Say(ShellMessage::AllocHelp)]
        } else if args.len() == 1 {
            match spec_parse_usize(args[0]) {
                Some(size) => seq![ShellAction::Allocate { size }],
                None => seq![ShellAction::Say(ShellMessage::NotANumber)],
            }
        } else if args.len() < 3 {
            seq![ShellAction::Say(ShellMessage::Malformed), dealloc_request(args, 0, 0, 0)]
        } else {
            seq![dealloc_request(args, 0, 0, 0)]
        }
    } else if command == memtest() {
        if args.len() == 0 {
            seq![ShellAction::Say(ShellMessage::TestAddressRequired)]
        } else {
            match spec_memory_address(args[0]) {
                Some(address) => seq![ShellAction::ReadWord { address }],
                None => seq![ShellAction::Say(ShellMessage::NotAnAddress)],
            }
        }
    } else if command == memmap() {
        seq![ShellAction::MemMap]
    } else if command == echo() {
        seq![ShellAction::Echo]
    } else if command == poke() {
        if args.len() < 2 {
            seq![ShellAction::Say(ShellMessage::PokeUsage)]
        } else {
            match spec_memory_address(args[0]) {
                Some(address) => match spec_parse_u64(args[1], 10) {
                    Some(value) => if value <= u32::MAX {
                        seq![
                            ShellAction::Poke { address, value: value as u32 },
                            ShellAction::ShowInput,
                        ]
                    } else {
                        seq![ShellAction::Say(ShellMessage::PokeNotANumber)]
                    },
                    None => seq![ShellAction::Say(ShellMessage::PokeNotANumber)],
                },
                None => seq![
                    ShellAction::Say(ShellMessage::PokeNotAnAddress),
                    ShellAction::ShowInput,
                ],
            }
        }
    } else {
        seq![ShellAction::ShowInput]
    }
}

/// A command line, taken apart, and what the shell does for it.
pub struct Execution {
    pub command: Vec<u8>,
    pub args: Vec<Vec<u8>>,
    pub actions: Vec<ShellAction>,
}

/// Whether `s` spells the word that `word` holds.
fn is_word(s: &[u8], word: &[u8]) -> (r: bool)
    ensures
        r == (s@ == word@),
{
    bytes_eq(s, word)
}

/// Reads a request to deallocate from the arguments of `memalloc`; see
/// [`dealloc_request`].
fn read_dealloc_request(args: &Vec<Vec<u8>>) -> (r: ShellAction)
    ensures
        r == dealloc_request(views(args@), 0, 0, 0),
{
    let mut memory_address: u64 = 0;
    let mut size: usize = 0;
    let mut i: usize = 0;
    while i < args.len()
        invariant
            i <= args.len(),
            dealloc_request(views(args@), 0, 0, 0) == dealloc_request(
                views(args@),
                i as int,
                memory_address,
                size,
            ),
        decreases args.len() - i,
    {
        let arg = args[i].as_slice();
        assert(views(args@)[i as int] == arg@);
        if arg.len() > 0 && arg[0] == 0x2D {
            i += 1;
            continue ;
        }
        if arg.len() >= 2 && arg[0] == 0x30 && arg[1] == 0x78 {
            match parse_memory_address(arg) {
                Some(address) => {
                    memory_address = address;
                },
                None => {
                    return ShellAction::Say(ShellMessage::NotAnAddress);
                },
            }
            i += 1;
            continue ;
        }
        match parse_usize(arg) {
            Some(n) => {
                size = n;
            },
            None => {
                return ShellAction::Say(ShellMessage::NotANumber);
            },
        }
        i += 1;
    }
    ShellAction::Deallocate { address: memory_address, size }
}

/// Decides what the shell does for a command line: takes the line apart
/// as [`parse_input`] does, and answers as [`shell_actions`] says.
pub fn exec(command: &[u8]) -> (r: Execution)
    ensures
        words(command@).len() == 0 ==> r.command@.len() == 0 && r.args@.len() == 0,
        words(command@).len() > 0 ==> r.command@ == words(command@)[0] && views(r.args@) == words(
            command@,
        ).skip(1),
        r.actions@ == shell_actions(r.command@, views(r.args@)),
{
    proof {
        lemma_trim_twice(command@);
    }
    let (name, args) = parse_input(trim(command));
    let mut actions: Vec<ShellAction> = Vec::new();
    let ghost a = views(args@);
    proof {
        if args.len() > 0 {
            assert(a[0] == args[0]@);
        }
        if args.len() > 1 {
            assert(a[1] == args[1]@);
        }
    }

    let memstat_word: [u8; 7] = [0x6D, 0x65, 0x6D, 0x73, 0x74, 0x61, 0x74];
    let memalloc_word: [u8; 8] = [0x6D, 0x65, 0x6D, 0x61, 0x6C, 0x6C, 0x6F, 0x63];
    let memtest_word: [u8; 7] = [0x6D, 0x65, 0x6D, 0x74, 0x65, 0x73, 0x74];
    let memmap_word: [u8; 6] = [0x6D, 0x65, 0x6D, 0x6D, 0x61, 0x70];
    let echo_word: [u8; 4] = [0x65, 0x63, 0x68, 0x6F];
    let poke_word: [u8; 4] = [0x70, 0x6F, 0x6B, 0x65];
    let long_help_word: [u8; 6] = [0x2D, 0x2D, 0x68, 0x65, 0x6C, 0x70];
    let short_help_word: [u8; 2] = [0x2D, 0x68];
    assert(memstat_word@ =~= memstat());
    assert(memalloc_word@ =~= memalloc());
    assert(memtest_word@ =~= memtest());
    assert(memmap_word@ =~= memmap());
    assert(echo_word@ =~= echo());
    assert(poke_word@ =~= poke());
    assert(long_help_word@ =~= long_help());
    assert(short_help_word@ =~= short_help());

    if name.len() == 0 {
    } else if is_word(name.as_slice(), memstat_word.as_slice()) {
        actions.push(ShellAction::MemStat);
    } else if is_word(name.as_slice(), memalloc_word.as_slice()) {
        if args.len() == 0 {
            actions.push(ShellAction::Say(ShellMessage::AllocSizeRequired));
        } else if is_word(args[0].as_slice(), long_help_word.as_slice()) || is_word(
            args[0].as_slice(),
            short_help_word.as_slice(),
        ) {
            // print help menu
            actions.push(ShellAction::Say(ShellMessage::AllocHelp));
        } else if args.len() == 1 {
            // allocate
            match parse_usize(args[0].as_slice()) {
                Some(size) => actions.push(ShellAction::Allocate { size }),
                None => actions.push(ShellAction::Say(ShellMessage::NotANumber)),
            }
        } else {
            // deallocate
            if args.len() < 3 {
                actions.push(ShellAction::Say(ShellMessage::Malformed));
            }
            actions.push(read_dealloc_request(&args));
        }
    } else if is_word(name.as_slice(), memtest_word.as_slice()) {
        if args.len() == 0 {
            actions.push(ShellAction::Say(ShellMessage::TestAddressRequired));
        } else {
            match parse_memory_address(args[0].as_slice()) {
                Some(address) => actions.push(ShellAction::ReadWord { address }),
                None => actions.push(ShellAction::Say(ShellMessage::NotAnAddress)),
            }
        }
    } else if is_word(name.as_slice(), memmap_word.as_slice()) {
        actions.push(ShellAction::MemMap);
    } else if is_word(name.as_slice(), echo_word.as_slice()) {
        actions.push(ShellAction::Echo);
    } else if is_word(name.as_slice(), poke_word.as_slice()) {
        if args.len() < 2 {
            actions.push(ShellAction::Say(ShellMessage::PokeUsage));
        } else {
            match parse_memory_address(args[0].as_slice()) {
                Some(address) => {
                    match parse_u64(args[1].as_slice(), 10) {
                        Some(value) => {
                            if value <= u32::MAX as u64 {
                                actions.push(ShellAction::Poke { address, value: value as u32 });
                                actions.push(ShellAction::ShowInput);
                            } else {
                                actions.push(ShellAction::Say(ShellMessage::PokeNotANumber));
                            }
                        },
                        None => {
                            actions.push(ShellAction::Say(ShellMessage::PokeNotANumber));
                        },
                    }
                },
                None => {
                    actions.push(ShellAction::Say(ShellMessage::PokeNotAnAddress));
                    actions.push(ShellAction::ShowInput);
                },
            }
        }
    } else {
        actions.push(ShellAction::ShowInput);
    }
    assert(actions@ =~= shell_actions(name@, a));
    Execution { command: name, args, actions }
}

/// What is trimmed has no white space left at its ends.
pub proof fn lemma_trim_twice(s: Seq<u8>)
    ensures
        trimmed(trimmed(s)) == trimmed(s),
{
    crate::libs::text::lemma_trimmed_is_trimmed(s);
}

/// A key that was pressed.
pub struct Key {
    /// The name of the key.
    pub name: Vec<u8>,
    /// The character that the key stands for, if it stands for one.
    pub character: Option<u8>,
    /// Whether the character can be shown.
    pub printable: bool,
}

/// What a key press leaves to do outside the console: what to draw,
/// whether a line is to be run, and whether a new prompt is due.
pub struct KeyEffect {
    pub drawn: Vec<Glyph>,
    pub run: Option<Vec<u8>>,
    pub prompt: bool,
}

/// Whether `s` begins with `prefix`.
pub open spec fn starts_with(s: Seq<u8>, prefix: Seq<u8>) -> bool {
    prefix.len() <= s.len() && s.subrange(0, prefix.len() as int) == prefix
}

/// Whether `s` ends with `suffix`.
pub open spec fn ends_with(s: Seq<u8>, suffix: Seq<u8>) -> bool {
    suffix.len() <= s.len() && s.subrange(s.len() - suffix.len(), s.len() as int) == suffix
}

/// Whether `s` begins with `prefix`; see [`starts_with`].
pub fn has_prefix(s: &[u8], prefix: &[u8]) -> (r: bool)
    ensures
        r == starts_with(s@, prefix@),
{
    if prefix.len() > s.len() {
        return false;
    }
    bytes_eq(vstd::slice::slice_subrange(s, 0, prefix.len()), prefix)
}

/// Whether `s` ends with `suffix`; see [`ends_with`].
pub fn has_suffix(s: &[u8], suffix: &[u8]) -> (r: bool)
    ensures
        r == ends_with(s@, suffix@),
{
    if suffix.len() > s.len() {
        return false;
    }
    bytes_eq(vstd::slice::slice_subrange(s, s.len() - suffix.len(), s.len()), suffix)
}

pub open spec fn key_enter() -> Seq<u8> {
    seq![0x45u8, 0x6E, 0x74, 0x65, 0x72]
}

pub open spec fn key_backspace() -> Seq<u8> {
    seq![0x42u8, 0x61, 0x63, 0x6B, 0x73, 0x70, 0x61, 0x63, 0x65]
}

pub open spec fn key_cursor() -> Seq<u8> {
    seq![0x43u8, 0x75, 0x72]
}

pub open spec fn key_up() -> Seq<u8> {
    seq![0x55u8, 0x70]
}

pub open spec fn key_down() -> Seq<u8> {
    seq![0x44u8, 0x6F, 0x77, 0x6E]
}

/// The line that is being typed, as it is run: its bytes, or nothing where
/// they are not valid UTF-8.
pub open spec fn typed_line(buffer: Seq<u8>) -> Seq<u8> {
    if valid_utf8(buffer) {
        buffer
    } else {
        Seq::empty()
    }
}

/// What a key press does.
///
/// `Enter` ends the line: the cursor goes to the next row, the line is to
/// be run, and the line being typed is empty again. The character with the
/// code 3 drops the line and shows `^C`. `Backspace` takes the last byte
/// off a line that has one and blanks it on the screen. The cursor keys
/// for up and down do nothing, and every other cursor key moves the cursor
/// to the left. A key with a character that can be shown adds the
/// character to the line and shows it. Every other key does nothing.
pub fn handle_key(input_buffer: &mut InputBuffer, cursor: &mut Cursor, key: &Key, columns: u16) -> (r:
    KeyEffect)
    ensures
        key.name@ == key_enter() ==> {
            &&& final(input_buffer).buffer@.len() == 0
            &&& r.drawn@.len() == 0
            &&& r.run is Some && r.run->Some_0@ == typed_line(old(input_buffer).buffer@)
            &&& r.prompt
            &&& *final(cursor) == (Cursor {
                fg: DEFAULT_FG,
                bg: DEFAULT_BG,
                ..next_row(*old(cursor))
            })
        },
        key.name@ != key_enter() && key.character == Some(3u8) ==> {
            &&& final(input_buffer).buffer@.len() == 0
            &&& r.run is None
            &&& r.prompt
            &&& (*final(cursor), r.drawn@) == spec_puts(
                *old(cursor),
                seq![0x5Eu8, 0x43, 0x0A],
                columns,
            )
        },
        key.name@ != key_enter() && key.character != Some(3u8) ==> r.run is None && !r.prompt,
        key.name@ != key_enter() && key.character != Some(3u8) && key.name@ == key_backspace()
            && old(input_buffer).buffer@.len() > 0 ==> {
            let erased = spec_puts(stepped_left(*old(cursor), columns), seq![BLANK], columns);
            &&& final(input_buffer).buffer@ == old(input_buffer).buffer@.drop_last()
            &&& r.drawn@ == erased.1
            &&& *final(cursor) == stepped_left(erased.0, columns)
        },
        key.name@ != key_enter() && key.character != Some(3u8) && !(key.name@ == key_backspace()
            && old(input_buffer).buffer@.len() > 0) && starts_with(key.name@, key_cursor()) ==> {
            &&& final(input_buffer).buffer@ == old(input_buffer).buffer@
            &&& r.drawn@.len() == 0
            &&& *final(cursor) == if ends_with(key.name@, key_up()) || ends_with(
                key.name@,
                key_down(),
            ) {
                *old(cursor)
            } else {
                stepped_left(*old(cursor), columns)
            }
        },
        key.name@ != key_enter() && key.character != Some(3u8) && !(key.name@ == key_backspace()
            && old(input_buffer).buffer@.len() > 0) && !starts_with(key.name@, key_cursor()) ==> {
            if key.printable && key.character is Some {
                &&& final(input_buffer).buffer@ == old(input_buffer).buffer@.push(
                    key.character->Some_0,
                )
                &&& (*final(cursor), r.drawn@) == spec_puts(
                    *old(cursor),
                    seq![key.character->Some_0],
                    columns,
                )
            } else {
                &&& final(input_buffer).buffer@ == old(input_buffer).buffer@
                &&& r.drawn@.len() == 0
                &&& *final(cursor) == *old(cursor)
            }
        },
{
    let enter: [u8; 5] = [0x45, 0x6E, 0x74, 0x65, 0x72];
    let backspace: [u8; 9] = [0x42, 0x61, 0x63, 0x6B, 0x73, 0x70, 0x61, 0x63, 0x65];
    let cur: [u8; 3] = [0x43, 0x75, 0x72];
    let up: [u8; 2] = [0x55, 0x70];
    let down: [u8; 4] = [0x44, 0x6F, 0x77, 0x6E];
    assert(enter@ =~= key_enter());
    assert(backspace@ =~= key_backspace());
    assert(cur@ =~= key_cursor());
    assert(up@ =~= key_up());
    assert(down@ =~= key_down());
    let name = key.name.as_slice();

    if bytes_eq(name, enter.as_slice()) {
        let line_feed: [u8; 1] = [0x0A];
        let drawn = puts(cursor, line_feed.as_slice(), columns);
        proof {
            reveal_with_fuel(console_run, 3);
        }
        let mut line: Vec<u8> = Vec::new();
        line.extend_from_slice(input_buffer.as_str().as_bytes());
        assert(line@ =~= typed_line(input_buffer.buffer@));
        input_buffer.clear();
        return KeyEffect { drawn, run: Some(line), prompt: true };
    }
    match key.character {
        Some(character) => {
            if character == 3 {
                let interrupt: [u8; 3] = [0x5E, 0x43, 0x0A];
                assert(interrupt@ =~= seq![0x5Eu8, 0x43, 0x0A]);
                let drawn = puts(cursor, interrupt.as_slice(), columns);
                input_buffer.clear();
                return KeyEffect { drawn, run: None, prompt: true };
            }
        },
        None => {},
    }
    if bytes_eq(name, backspace.as_slice()) && input_buffer.buffer.len() > 0 {
        input_buffer.pop();
        cursor.move_left(columns);
        let blank: [u8; 1] = [BLANK];
        assert(blank@ =~= seq![BLANK]);
        let drawn = puts(cursor, blank.as_slice(), columns);
        cursor.move_left(columns);
        return KeyEffect { drawn, run: None, prompt: false };
    }
    if has_prefix(name, cur.as_slice()) {
        if has_suffix(name, up.as_slice()) || has_suffix(name, down.as_slice()) {
            return KeyEffect { drawn: Vec::new(), run: None, prompt: false };
        }
        cursor.move_left(columns);
        return KeyEffect { drawn: Vec::new(), run: None, prompt: false };
    }
    if key.printable {
        match key.character {
            Some(character) => {
                input_buffer.push(character);
                let shown: [u8; 1] = [character];
                assert(shown@ =~= seq![character]);
                let drawn = puts(cursor, shown.as_slice(), columns);
                return KeyEffect { drawn, run: None, prompt: false };
            },
            None => {},
        }
    }
    KeyEffect { drawn: Vec::new(), run: None, prompt: false }
}

} // verus!
