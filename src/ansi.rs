//! Color references as the terminal stores them in cells, and their SGR codes.

use vstd::prelude::*;

verus! {

/// A concrete 24-bit color.
#[derive(Debug, Clone, Copy, PartialEq, Eq, Structural, Default)]
pub struct Rgb {
    pub r: u8,
    pub g: u8,
    pub b: u8,
}

/// Number of slots in the indexed color space, semantic slots included.
pub const COUNT: usize = 268;

/// The named slots of the indexed color space.
#[derive(Debug, Clone, Copy, PartialEq, Eq, Structural)]
pub enum NamedColor {
    Black,
    Red,
    Green,
    Yellow,
    Blue,
    Magenta,
    Cyan,
    White,
    BrightBlack,
    BrightRed,
    BrightGreen,
    BrightYellow,
    BrightBlue,
    BrightMagenta,
    BrightCyan,
    BrightWhite,
    /// The default foreground color.
    Foreground,
    /// The default background color.
    Background,
    DimBlack,
    DimRed,
    DimGreen,
    DimYellow,
    DimBlue,
    DimMagenta,
    DimCyan,
    DimWhite,
    /// Foreground for bold text when no bright variant applies.
    BrightForeground,
    /// Foreground for dim text.
    DimForeground,
}

impl NamedColor {
    /// The slot of the color in the palette.
    pub open spec fn spec_index(self) -> usize {
        match self {
            NamedColor::Black => 0,
            NamedColor::Red => 1,
            NamedColor::Green => 2,
            NamedColor::Yellow => 3,
            NamedColor::Blue => 4,
            NamedColor::Magenta => 5,
            NamedColor::Cyan => 6,
            NamedColor::White => 7,
            NamedColor::BrightBlack => 8,
            NamedColor::BrightRed => 9,
            NamedColor::BrightGreen => 10,
            NamedColor::BrightYellow => 11,
            NamedColor::BrightBlue => 12,
            NamedColor::BrightMagenta => 13,
            NamedColor::BrightCyan => 14,
            NamedColor::BrightWhite => 15,
            NamedColor::Foreground => 256,
            NamedColor::Background => 257,
            NamedColor::DimBlack => 258,
            NamedColor::DimRed => 259,
            NamedColor::DimGreen => 260,
            NamedColor::DimYellow => 261,
            NamedColor::DimBlue => 262,
            NamedColor::DimMagenta => 263,
            NamedColor::DimCyan => 264,
            NamedColor::DimWhite => 265,
            NamedColor::BrightForeground => 266,
            NamedColor::DimForeground => 267,
        }
    }

    /// The slot of the color in the palette.
    #[verifier::when_used_as_spec(spec_index)]
    pub fn index(self) -> (r: usize)
        ensures
            r == self.spec_index(),
            r < COUNT,
    {
        match self {
            NamedColor::Black => 0,
            NamedColor::Red => 1,
            NamedColor::Green => 2,
            NamedColor::Yellow => 3,
            NamedColor::Blue => 4,
            NamedColor::Magenta => 5,
            NamedColor::Cyan => 6,
            NamedColor::White => 7,
            NamedColor::BrightBlack => 8,
            NamedColor::BrightRed => 9,
            NamedColor::BrightGreen => 10,
            NamedColor::BrightYellow => 11,
            NamedColor::BrightBlue => 12,
            NamedColor::BrightMagenta => 13,
            NamedColor::BrightCyan => 14,
            NamedColor::BrightWhite => 15,
            NamedColor::Foreground => 256,
            NamedColor::Background => 257,
            NamedColor::DimBlack => 258,
            NamedColor::DimRed => 259,
            NamedColor::DimGreen => 260,
            NamedColor::DimYellow => 261,
            NamedColor::DimBlue => 262,
            NamedColor::DimMagenta => 263,
            NamedColor::DimCyan => 264,
            NamedColor::DimWhite => 265,
            NamedColor::BrightForeground => 266,
            NamedColor::DimForeground => 267,
        }
    }
}

/// A color reference held by a cell.
#[derive(Debug, Clone, Copy, PartialEq, Eq, Structural)]
pub enum Color {
    Named(NamedColor),
    Spec(Rgb),
    Indexed(u8),
}

/// The ASCII digit for `d`, which is below ten.
pub open spec fn digit(d: nat) -> char {
    ((d + 48) as u8) as char
}

/// Decimal digits of `n`, without leading zeros.
pub open spec fn decimal(n: u8) -> Seq<char> {
    if n >= 100 {
        seq![digit(n as nat / 100), digit((n as nat / 10) % 10), digit(n as nat % 10)]
    } else if n >= 10 {
        seq![digit(n as nat / 10), digit(n as nat % 10)]
    } else {
        seq![digit(n as nat)]
    }
}

/// The SGR parameter that selects `c`, each number followed by `;`.
/// `fg` picks the foreground form, else the background form.
pub open spec fn color_code(c: Color, fg: bool) -> Seq<char> {
    let base: nat = if fg { 3 } else { 4 };
    let bright: Seq<char> = if fg { seq!['9'] } else { seq!['1', '0'] };
    match c {
        Color::Named(n) => {
            let i = n.spec_index() as nat;
            if i < 8 {
                seq![digit(base), digit(i)] + seq![';']
            } else if i < 16 {
                bright + seq![digit((i - 8) as nat), ';']
            } else if 258 <= i && i < 266 {
                seq![digit(base), digit((i - 258) as nat), ';']
            } else {
                seq![digit(base), '9', ';']
            }
        },
        Color::Indexed(i) => seq![digit(base), '8', ';', '5', ';'] + decimal(i) + seq![';'],
        Color::Spec(rgb) => seq![digit(base), '8', ';', '2', ';'] + decimal(rgb.r) + seq![';']
            + decimal(rgb.g) + seq![';'] + decimal(rgb.b) + seq![';'],
    }
}

/// What the render stream needs to move from `last` to `c`: nothing when
/// they are the same.
pub open spec fn color_diff(c: Color, last: Color, fg: bool) -> Seq<char> {
    if c == last {
        Seq::empty()
    } else {
        color_code(c, fg)
    }
}

fn push_digit(buf: &mut Vec<char>, d: u8)
    requires
        d < 10,
    ensures
        final(buf)@ == old(buf)@.push(digit(d as nat)),
{
    buf.push(((d + 48) as u8) as char);
}

/// Appends the decimal digits of `n`.
fn push_decimal(buf: &mut Vec<char>, n: u8)
    ensures
        final(buf)@ == old(buf)@ + decimal(n),
{
    if n >= 100 {
        push_digit(buf, n / 100);
        push_digit(buf, (n / 10) % 10);
        push_digit(buf, n % 10);
    } else if n >= 10 {
        push_digit(buf, n / 10);
        push_digit(buf, n % 10);
    } else {
        push_digit(buf, n);
    }
    assert(buf@ =~= old(buf)@ + decimal(n));
}

impl Color {
    /// Appends the SGR parameters that switch the render stream from `last`
    /// to this color; nothing when the two are equal.
    pub fn as_escape(&self, buf: &mut Vec<char>, last: Color, fg: bool)
        ensures
            final(buf)@ == old(buf)@ + color_diff(*self, last, fg),
    {
        if *self == last {
            assert(buf@ =~= old(buf)@ + color_diff(*self, last, fg));
            return;
        }
        let ghost start = buf@;
        let base: u8 = if fg { 3 } else { 4 };
        match *self {
            Color::Named(n) => {
                let i = n.index();
                if i < 8 {
                    push_digit(buf, base);
                    push_digit(buf, i as u8);
                } else if i < 16 {
                    if fg {
                        buf.push('9');
                    } else {
                        buf.push('1');
                        buf.push('0');
                    }
                    push_digit(buf, (i - 8) as u8);
                } else if 258 <= i && i < 266 {
                    push_digit(buf, base);
                    push_digit(buf, (i - 258) as u8);
                } else {
                    push_digit(buf, base);
                    buf.push('9');
                }
                buf.push(';');
            },
            Color::Indexed(i) => {
                push_digit(buf, base);
                buf.push('8');
                buf.push(';');
                buf.push('5');
                buf.push(';');
                push_decimal(buf, i);
                buf.push(';');
            },
            Color::Spec(rgb) => {
                push_digit(buf, base);
                buf.push('8');
                buf.push(';');
                buf.push('2');
                buf.push(';');
                push_decimal(buf, rgb.r);
                buf.push(';');
                push_decimal(buf, rgb.g);
                buf.push(';');
                push_decimal(buf, rgb.b);
                buf.push(';');
            },
        }
        assert(buf@ =~= start + color_diff(*self, last, fg));
    }
}

} // verus!
