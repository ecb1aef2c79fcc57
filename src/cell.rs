//! The terminal character cell.

use vstd::prelude::*;

use crate::ansi::{color_diff, Color, NamedColor};
use crate::grid::{GridCell, Row};
use crate::index::Column;

verus! {

/// Maximum number of zero-width characters stored in one cell.
pub const MAX_ZEROWIDTH_CHARS: usize = 5;

/// Number of characters that `Cell::chars` hands out: the primary one and the
/// zero-width slots.
pub const CELL_CHARS: usize = MAX_ZEROWIDTH_CHARS + 1;

/// The attributes of a cell, one switch each.
#[derive(Debug, Clone, Copy, PartialEq, Eq, Structural, Default)]
pub struct Flags {
    pub inverse: bool,
    pub bold: bool,
    pub italic: bool,
    pub underline: bool,
    pub wrapline: bool,
    pub wide_char: bool,
    pub wide_char_spacer: bool,
    pub dim: bool,
    pub hidden: bool,
    pub strikeout: bool,
}

impl Flags {
    /// No attribute set.
    pub fn empty() -> (r: Flags)
        ensures
            r == Flags::spec_empty(),
    {
        Flags {
            inverse: false,
            bold: false,
            italic: false,
            underline: false,
            wrapline: false,
            wide_char: false,
            wide_char_spacer: false,
            dim: false,
            hidden: false,
            strikeout: false,
        }
    }

    /// No attribute set.
    pub open spec fn spec_empty() -> Flags {
        Flags {
            inverse: false,
            bold: false,
            italic: false,
            underline: false,
            wrapline: false,
            wide_char: false,
            wide_char_spacer: false,
            dim: false,
            hidden: false,
            strikeout: false,
        }
    }

    /// The attributes as a bitset, in the bit order of the serialized form:
    /// inverse, bold, italic, underline, wrapline, wide char, wide char
    /// spacer, dim, hidden, strikeout.
    pub open spec fn spec_bits(self) -> u16 {
        (if self.inverse { 1u16 } else { 0u16 }) | (if self.bold { 2u16 } else { 0u16 }) | (
        if self.italic {
            4u16
        } else {
            0u16
        }) | (if self.underline { 8u16 } else { 0u16 }) | (if self.wrapline { 16u16 } else { 0u16 })
            | (if self.wide_char { 32u16 } else { 0u16 }) | (if self.wide_char_spacer { 64u16 } else { 0u16 })
            | (if self.dim { 128u16 } else { 0u16 }) | (if self.hidden { 256u16 } else { 0u16 }) | (
        if self.strikeout {
            512u16
        } else {
            0u16
        })
    }

    /// The attributes as a bitset.
    pub fn bits(&self) -> (r: u16)
        ensures
            r == self.spec_bits(),
    {
        (if self.inverse { 1u16 } else { 0u16 }) | (if self.bold { 2u16 } else { 0u16 }) | (
        if self.italic {
            4u16
        } else {
            0u16
        }) | (if self.underline { 8u16 } else { 0u16 }) | (if self.wrapline { 16u16 } else { 0u16 })
            | (if self.wide_char { 32u16 } else { 0u16 }) | (if self.wide_char_spacer { 64u16 } else { 0u16 })
            | (if self.dim { 128u16 } else { 0u16 }) | (if self.hidden { 256u16 } else { 0u16 }) | (
        if self.strikeout {
            512u16
        } else {
            0u16
        })
    }

    /// The attributes whose bits are set in `b`; other bits are ignored.
    pub fn from_bits(b: u16) -> (r: Flags)
        ensures
            r.inverse == (b & 1 != 0),
            r.bold == (b & 2 != 0),
            r.italic == (b & 4 != 0),
            r.underline == (b & 8 != 0),
            r.wrapline == (b & 16 != 0),
            r.wide_char == (b & 32 != 0),
            r.wide_char_spacer == (b & 64 != 0),
            r.dim == (b & 128 != 0),
            r.hidden == (b & 256 != 0),
            r.strikeout == (b & 512 != 0),
    {
        Flags {
            inverse: b & 1 != 0,
            bold: b & 2 != 0,
            italic: b & 4 != 0,
            underline: b & 8 != 0,
            wrapline: b & 16 != 0,
            wide_char: b & 32 != 0,
            wide_char_spacer: b & 64 != 0,
            dim: b & 128 != 0,
            hidden: b & 256 != 0,
            strikeout: b & 512 != 0,
        }
    }

    /// Reading back the bitset of a set of attributes gives the same
    /// attributes.
    pub proof fn lemma_bits_round_trip(self)
        ensures
            (self.spec_bits() & 1 != 0) == self.inverse,
            (self.spec_bits() & 2 != 0) == self.bold,
            (self.spec_bits() & 4 != 0) == self.italic,
            (self.spec_bits() & 8 != 0) == self.underline,
            (self.spec_bits() & 16 != 0) == self.wrapline,
            (self.spec_bits() & 32 != 0) == self.wide_char,
            (self.spec_bits() & 64 != 0) == self.wide_char_spacer,
            (self.spec_bits() & 128 != 0) == self.dim,
            (self.spec_bits() & 256 != 0) == self.hidden,
            (self.spec_bits() & 512 != 0) == self.strikeout,
    {
        let (a, b, c, d, e) = (self.inverse, self.bold, self.italic, self.underline, self.wrapline);
        let (f, g, h, i, j) = (self.wide_char, self.wide_char_spacer, self.dim, self.hidden, self.strikeout);
        let x: u16 = self.spec_bits();
        assert(x == (if a { 1u16 } else { 0u16 }) | (if b { 2u16 } else { 0u16 }) | (if c { 4u16 } else { 0u16 })
            | (if d { 8u16 } else { 0u16 }) | (if e { 16u16 } else { 0u16 }) | (if f { 32u16 } else { 0u16 })
            | (if g { 64u16 } else { 0u16 }) | (if h { 128u16 } else { 0u16 }) | (if i { 256u16 } else { 0u16 })
            | (if j { 512u16 } else { 0u16 }));
        assert({
            &&& (x & 1 != 0) == a
            &&& (x & 2 != 0) == b
            &&& (x & 4 != 0) == c
            &&& (x & 8 != 0) == d
            &&& (x & 16 != 0) == e
            &&& (x & 32 != 0) == f
            &&& (x & 64 != 0) == g
            &&& (x & 128 != 0) == h
            &&& (x & 256 != 0) == i
            &&& (x & 512 != 0) == j
        }) by (bit_vector)
            requires
                x == (if a { 1u16 } else { 0u16 }) | (if b { 2u16 } else { 0u16 }) | (if c { 4u16 } else { 0u16 })
                    | (if d { 8u16 } else { 0u16 }) | (if e { 16u16 } else { 0u16 }) | (if f { 32u16 } else { 0u16 })
                    | (if g { 64u16 } else { 0u16 }) | (if h { 128u16 } else { 0u16 }) | (if i { 256u16 } else {
                    0u16
                }) | (if j { 512u16 } else { 0u16 }),
        ;
    }

    /// Bold and italic together.
    pub fn bold_italic() -> (r: Flags)
        ensures
            r == (Flags { bold: true, italic: true, ..Flags::spec_empty() }),
    {
        Flags { bold: true, italic: true, ..Flags::empty() }
    }

    /// Dim and bold together.
    pub fn dim_bold() -> (r: Flags)
        ensures
            r == (Flags { dim: true, bold: true, ..Flags::spec_empty() }),
    {
        Flags { dim: true, bold: true, ..Flags::empty() }
    }
}

/// One character position: the primary character, its colors, its
/// attributes and the zero-width characters drawn over it. Unused zero-width
/// slots hold a space.
#[derive(Debug, Clone, Copy, PartialEq, Eq)]
pub struct Cell {
    pub c: char,
    pub fg: Color,
    pub bg: Color,
    pub flags: Flags,
    pub extra: [char; MAX_ZEROWIDTH_CHARS],
}

/// A cell shows nothing: a blank character, no zero-width character, the
/// default colors and none of the attributes that draw on a blank.
pub open spec fn cell_is_empty(cell: Cell) -> bool {
    &&& (cell.c == ' ' || cell.c == '\t')
    &&& cell.extra@[0] == ' '
    &&& cell.bg == Color::Named(NamedColor::Background)
    &&& cell.fg == Color::Named(NamedColor::Foreground)
    &&& !cell.flags.inverse
    &&& !cell.flags.underline
    &&& !cell.flags.strikeout
    &&& !cell.flags.wrapline
    &&& !cell.flags.wide_char_spacer
}

/// The cell built by `Cell::new`.
pub open spec fn new_cell(c: char, fg: Color, bg: Color) -> Cell {
    Cell { c, fg, bg, flags: Flags::spec_empty(), extra: [' '; MAX_ZEROWIDTH_CHARS] }
}

/// The blank cell in the default colors.
pub open spec fn default_cell() -> Cell {
    new_cell(' ', Color::Named(NamedColor::Foreground), Color::Named(NamedColor::Background))
}

/// The first zero-width slot that is still free, if any.
pub open spec fn first_free_slot(extra: Seq<char>) -> Option<int> {
    if exists|k: int| 0 <= k < extra.len() && extra[k] == ' ' {
        Some(choose|k: int| 0 <= k < extra.len() && extra[k] == ' ' && forall|j: int| 0 <= j < k ==> extra[j] != ' ')
    } else {
        None
    }
}

/// The code of one attribute when it changed: its one-digit code `on` when
/// it was switched on, `2` followed by that digit when it was switched off.
#[verifier::opaque]
pub open spec fn toggle(now: bool, before: bool, on: char) -> Seq<char> {
    if now == before {
        Seq::empty()
    } else if now {
        seq![on, ';']
    } else {
        seq!['2', on, ';']
    }
}

/// The SGR parameters that switch the attributes from `last` to `flags`,
/// each followed by `;`.
pub open spec fn flag_codes(flags: Flags, last: Flags) -> Seq<char> {
    bold_dim_code(flags, last) + toggle(flags.italic, last.italic, '3')
        + toggle(flags.underline, last.underline, '4')
        + toggle(flags.inverse, last.inverse, '7')
        + toggle(flags.hidden, last.hidden, '8')
        + toggle(flags.strikeout, last.strikeout, '9')
}

/// Bold and dim share one code to switch both off.
pub open spec fn bold_dim_code(flags: Flags, last: Flags) -> Seq<char> {
    if flags.bold == last.bold && flags.dim == last.dim {
        Seq::empty()
    } else if !flags.bold && !flags.dim {
        seq!['2', '2', ';']
    } else if flags.bold {
        seq!['1', ';']
    } else {
        seq!['2', ';']
    }
}

/// All SGR parameters from `last` to `cell`: foreground, background, then
/// attributes.
pub open spec fn sgr_params(cell: Cell, last: Cell) -> Seq<char> {
    color_diff(cell.fg, last.fg, true) + color_diff(cell.bg, last.bg, false) + flag_codes(
        cell.flags,
        last.flags,
    )
}

/// The escape sequence that moves a render stream from `last` to `cell`:
/// empty when no parameter is needed, else `ESC [`, the parameters joined by
/// `;`, and `m`.
pub open spec fn escape(cell: Cell, last: Cell) -> Seq<char> {
    let p = sgr_params(cell, last);
    if p.len() == 0 {
        Seq::empty()
    } else {
        seq!['\x1b', '['] + p.drop_last() + seq!['m']
    }
}

/// Relies on `String`'s `Extend<&char>`: the characters are appended in order.
#[verifier::external_body]
fn extend_string(buf: &mut String, cs: &Vec<char>)
    ensures
        final(buf)@ == old(buf)@ + cs@,
{
    buf.extend(cs.iter());
}

fn push2(buf: &mut Vec<char>, a: char, b: char)
    ensures
        final(buf)@ == old(buf)@ + seq![a, b],
{
    buf.push(a);
    buf.push(b);
    assert(buf@ =~= old(buf)@ + seq![a, b]);
}

fn push3(buf: &mut Vec<char>, a: char, b: char, c: char)
    ensures
        final(buf)@ == old(buf)@ + seq![a, b, c],
{
    buf.push(a);
    buf.push(b);
    buf.push(c);
    assert(buf@ =~= old(buf)@ + seq![a, b, c]);
}

/// Appends the code of one attribute when it changed: `on` is its one-digit
/// code, `2` followed by it switches it off.
fn push_toggle(buf: &mut Vec<char>, now: bool, before: bool, on: char)
    ensures
        final(buf)@ == old(buf)@ + toggle(now, before, on),
{
    reveal(toggle);
    if now != before {
        if now {
            push2(buf, on, ';');
        } else {
            push3(buf, '2', on, ';');
        }
    } else {
        assert(buf@ =~= old(buf)@ + toggle(now, before, on));
    }
}

/// Appends the attribute codes from `last` to `flags`.
fn push_flag_codes(buf: &mut Vec<char>, flags: Flags, last: Flags)
    ensures
        final(buf)@ == old(buf)@ + flag_codes(flags, last),
{
    let mut codes: Vec<char> = Vec::new();
    if last.bold != flags.bold || last.dim != flags.dim {
        if !flags.bold && !flags.dim {
            push3(&mut codes, '2', '2', ';');
        } else if flags.bold {
            push2(&mut codes, '1', ';');
        } else {
            push2(&mut codes, '2', ';');
        }
    }
    assert(codes@ =~= bold_dim_code(flags, last));
    push_toggle(&mut codes, flags.italic, last.italic, '3');
    push_toggle(&mut codes, flags.underline, last.underline, '4');
    push_toggle(&mut codes, flags.inverse, last.inverse, '7');
    push_toggle(&mut codes, flags.hidden, last.hidden, '8');
    push_toggle(&mut codes, flags.strikeout, last.strikeout, '9');
    buf.append(&mut codes);
}

impl Default for Cell {
    fn default() -> (r: Cell)
        ensures
            r == default_cell(),
    {
        Cell::new(' ', Color::Named(NamedColor::Foreground), Color::Named(NamedColor::Background))
    }
}

impl Cell {
    pub fn bold(&self) -> (r: bool)
        ensures
            r == self.flags.bold,
    {
        self.flags.bold
    }

    pub fn inverse(&self) -> (r: bool)
        ensures
            r == self.flags.inverse,
    {
        self.flags.inverse
    }

    pub fn dim(&self) -> (r: bool)
        ensures
            r == self.flags.dim,
    {
        self.flags.dim
    }

    /// A cell with no attribute and no zero-width character.
    pub fn new(c: char, fg: Color, bg: Color) -> (r: Cell)
        ensures
            r == new_cell(c, fg, bg),
    {
        Cell { extra: [' '; MAX_ZEROWIDTH_CHARS], c, bg, fg, flags: Flags::empty() }
    }

    /// Clears the cell to the default one, keeping the character and the
    /// background of `template`.
    pub fn reset(&mut self, template: &Cell)
        ensures
            *final(self) == (Cell { c: template.c, bg: template.bg, ..default_cell() }),
    {
        *self = Cell { c: template.c, bg: template.bg, ..Cell::default() };
    }

    /// The primary character followed by the zero-width slots, in order.
    pub fn chars(&self) -> (r: [char; CELL_CHARS])
        ensures
            r@ == seq![self.c] + self.extra@,
    {
        let r = [self.c, self.extra[0], self.extra[1], self.extra[2], self.extra[3], self.extra[4]];
        assert(r@ =~= seq![self.c] + self.extra@);
        r
    }

    /// Stores `c` in the first free zero-width slot; when all are taken the
    /// character is dropped.
    pub fn push_extra(&mut self, c: char)
        ensures
            final(self).c == old(self).c,
            final(self).fg == old(self).fg,
            final(self).bg == old(self).bg,
            final(self).flags == old(self).flags,
            final(self).extra@ == match first_free_slot(old(self).extra@) {
                Some(k) => old(self).extra@.update(k, c),
                None => old(self).extra@,
            },
    {
        let mut i: usize = 0;
        while i < MAX_ZEROWIDTH_CHARS
            invariant
                0 <= i <= MAX_ZEROWIDTH_CHARS,
                *self == *old(self),
                forall|j: int| 0 <= j < i ==> self.extra@[j] != ' ',
            decreases MAX_ZEROWIDTH_CHARS - i,
        {
            if self.extra[i] == ' ' {
                proof {
                    let s = self.extra@;
                    assert(0 <= i < s.len() && s[i as int] == ' ');
                    let k = choose|k: int| 0 <= k < s.len() && s[k] == ' ' && forall|j: int| 0 <= j < k ==> s[j] != ' ';
                    assert(k == i as int) by {
                        if k < i {
                        } else if k > i {
                        }
                    }
                }
                self.extra[i] = c;
                return;
            }
            i += 1;
        }
    }

    /// Appends to `buf` the escape sequence that moves a render stream from
    /// the attributes of `last` to those of this cell.
    pub fn as_escape(&self, buf: &mut String, last: Cell)
        ensures
            final(buf)@ == old(buf)@ + escape(*self, last),
    {
        let mut params: Vec<char> = Vec::new();
        self.fg.as_escape(&mut params, last.fg, true);
        self.bg.as_escape(&mut params, last.bg, false);
        if self.flags != last.flags {
            push_flag_codes(&mut params, self.flags, last.flags);
        } else {
            reveal(toggle);
            assert(flag_codes(self.flags, last.flags) =~= Seq::empty());
        }
        assert(params@ =~= sgr_params(*self, last));
        if params.len() == 0 {
            assert(buf@ =~= old(buf)@ + escape(*self, last));
            return;
        }
        params.pop();
        params.push('m');
        let mut out: Vec<char> = Vec::new();
        out.push('\x1b');
        out.push('[');
        out.append(&mut params);
        assert(out@ =~= escape(*self, last));
        extend_string(buf, &out);
    }
}

/// The other cell's background is the same: a quick check to run before a
/// full comparison.
pub open spec fn same_background(a: Cell, b: Cell) -> bool {
    a.bg == b.bg
}

impl GridCell for Cell {
    open spec fn spec_is_empty(&self) -> bool {
        cell_is_empty(*self)
    }

    open spec fn spec_flags(&self) -> Flags {
        self.flags
    }

    open spec fn spec_fast_eq(&self, other: &Self) -> bool {
        same_background(*self, *other)
    }

    fn is_empty(&self) -> (r: bool) {
        (self.c == ' ' || self.c == '\t') && self.extra[0] == ' ' && self.bg == Color::Named(
            NamedColor::Background,
        ) && self.fg == Color::Named(NamedColor::Foreground) && !(self.flags.inverse
            || self.flags.underline || self.flags.strikeout || self.flags.wrapline
            || self.flags.wide_char_spacer)
    }

    fn flags(&self) -> (r: &Flags) {
        &self.flags
    }

    fn flags_mut(&mut self) -> (r: &mut Flags) {
        &mut self.flags
    }

    fn fast_eq(&self, other: &Self) -> (r: bool) {
        self.bg == other.bg
    }
}

/// The cell holds a character to show: a primary one other than a space, or
/// a zero-width one.
pub open spec fn has_text(cell: Cell) -> bool {
    cell.c != ' ' || cell.extra@[0] != ' '
}

/// Length of `s` once its trailing cells without text are cut off.
pub open spec fn text_len(s: Seq<Cell>) -> nat
    decreases s.len(),
{
    if s.len() == 0 {
        0
    } else if has_text(s.last()) {
        s.len()
    } else {
        text_len(s.drop_last())
    }
}

/// The occupied length of a line of cells: all of it when its last cell
/// wraps onto the next line, else up to its last cell with text.
pub open spec fn line_len(s: Seq<Cell>) -> nat {
    if s.len() > 0 && s.last().flags.wrapline {
        s.len()
    } else {
        text_len(s)
    }
}

/// The length of the occupied part of a line.
pub trait LineLength {
    spec fn spec_line_length(&self) -> nat;

    /// The occupied length.
    fn line_length(&self) -> (r: Column)
        ensures
            r.0 == self.spec_line_length(),
    ;
}

impl LineLength for Row<Cell> {
    open spec fn spec_line_length(&self) -> nat {
        line_len(self@)
    }

    fn line_length(&self) -> (r: Column) {
        let len = self.len();
        if len == 0 {
            return Column(0);
        }
        if self.index(Column(len - 1)).flags.wrapline {
            return Column(len);
        }
        let mut i: usize = len;
        assert(self@.subrange(0, i as int) =~= self@);
        while i > 0 && !(self.index(Column(i - 1)).c != ' ' || self.index(Column(i - 1)).extra[0] != ' ')
            invariant
                i <= len,
                len == self@.len(),
                text_len(self@) == text_len(self@.subrange(0, i as int)),
            decreases i,
        {
            assert(self@.subrange(0, i as int).drop_last() =~= self@.subrange(0, i - 1));
            i -= 1;
        }
        assert(self@.subrange(0, 0) =~= Seq::<Cell>::empty());
        Column(i)
    }
}

/// Two cells with the same colors and attributes need no escape sequence
/// between them, whatever characters they hold.
pub proof fn lemma_same_attributes_no_escape(a: Cell, b: Cell)
    requires
        a.fg == b.fg,
        a.bg == b.bg,
        a.flags == b.flags,
    ensures
        escape(a, b) == Seq::<char>::empty(),
{
    reveal(toggle);
    assert(sgr_params(a, b) =~= Seq::<char>::empty());
}

} // verus!
