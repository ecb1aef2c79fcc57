use alacritty_terminal::ansi::{Color, NamedColor, Rgb};
use alacritty_terminal::cell::{Cell, Flags};
use alacritty_terminal::grid::GridCell;

fn escape(cell: &Cell, last: Cell) -> String {
    let mut buf = String::from("prefix");
    cell.as_escape(&mut buf, last);
    buf.split_off(6)
}

#[test]
fn same_attributes_need_no_escape() {
    let a = Cell::new('a', Color::Indexed(3), Color::Spec(Rgb { r: 1, g: 2, b: 3 }));
    let mut b = Cell::new('b', Color::Indexed(3), Color::Spec(Rgb { r: 1, g: 2, b: 3 }));
    b.push_extra('\u{301}');
    assert_eq!(escape(&a, b), "");
    assert_eq!(escape(&Cell::default(), Cell::default()), "");
}

#[test]
fn escape_for_attribute_changes() {
    let last = Cell::default();
    let mut bold = Cell::default();
    bold.flags.bold = true;
    assert_eq!(escape(&bold, last), "\x1b[1m");
    assert_eq!(escape(&last, bold), "\x1b[22m");
    let mut dim = Cell::default();
    dim.flags.dim = true;
    assert_eq!(escape(&dim, last), "\x1b[2m");
    let mut many = Cell::default();
    many.flags = Flags::bold_italic();
    many.flags.underline = true;
    many.flags.inverse = true;
    many.flags.hidden = true;
    many.flags.strikeout = true;
    assert_eq!(escape(&many, last), "\x1b[1;3;4;7;8;9m");
    assert_eq!(escape(&last, many), "\x1b[22;23;24;27;28;29m");
    let mut wrapped = Cell::default();
    wrapped.flags.wrapline = true;
    assert_eq!(escape(&wrapped, last), "");
}

#[test]
fn escape_for_color_changes() {
    let last = Cell::default();
    let red = Cell::new(' ', Color::Named(NamedColor::Red), Color::Named(NamedColor::Background));
    assert_eq!(escape(&red, last), "\x1b[31m");
    let bright_bg = Cell::new(' ', Color::Named(NamedColor::Foreground), Color::Named(NamedColor::BrightCyan));
    assert_eq!(escape(&bright_bg, last), "\x1b[106m");
    assert_eq!(escape(&last, bright_bg), "\x1b[49m");
    let mut indexed = Cell::new(' ', Color::Indexed(100), Color::Named(NamedColor::Background));
    indexed.flags.italic = true;
    assert_eq!(escape(&indexed, last), "\x1b[38;5;100;3m");
    let rgb = Cell::new(' ', Color::Spec(Rgb { r: 255, g: 0, b: 37 }), Color::Spec(Rgb { r: 9, g: 10, b: 200 }));
    assert_eq!(escape(&rgb, last), "\x1b[38;2;255;0;37;48;2;9;10;200m");
}

#[test]
fn escape_appends_to_buffer() {
    let mut buf = String::from("ab");
    let mut bold = Cell::default();
    bold.flags.bold = true;
    bold.as_escape(&mut buf, Cell::default());
    assert_eq!(buf, "ab\x1b[1m");
    Cell::default().as_escape(&mut buf, Cell::default());
    assert_eq!(buf, "ab\x1b[1m");
}

#[test]
fn emptiness_predicate() {
    assert!(Cell::default().is_empty());
    let mut tab = Cell::default();
    tab.c = '\t';
    assert!(tab.is_empty());
    let mut bold = Cell::default();
    bold.flags.bold = true;
    assert!(bold.is_empty());
    let mut under = Cell::default();
    under.flags.underline = true;
    assert!(!under.is_empty());
    let mut spacer = Cell::default();
    spacer.flags.wide_char_spacer = true;
    assert!(!spacer.is_empty());
    let mut mark = Cell::default();
    mark.push_extra('\u{301}');
    assert!(!mark.is_empty());
    let colored = Cell::new(' ', Color::Named(NamedColor::Foreground), Color::Indexed(0));
    assert!(!colored.is_empty());
    let fg = Cell::new(' ', Color::Named(NamedColor::Red), Color::Named(NamedColor::Background));
    assert!(!fg.is_empty());
}

#[test]
fn push_extra_fills_slots_then_drops() {
    let mut cell = Cell::new('e', Color::Named(NamedColor::Foreground), Color::Named(NamedColor::Background));
    for c in ['1', '2', '3', '4', '5', '6'] {
        cell.push_extra(c);
    }
    assert_eq!(cell.chars(), ['e', '1', '2', '3', '4', '5']);
    let plain = Cell::default();
    assert_eq!(plain.chars(), [' '; 6]);
}

#[test]
fn reset_keeps_character_and_background() {
    let mut cell = Cell::new('x', Color::Named(NamedColor::Red), Color::Named(NamedColor::Blue));
    cell.flags.bold = true;
    cell.push_extra('\u{301}');
    let template = Cell::new('t', Color::Indexed(9), Color::Indexed(7));
    cell.reset(&template);
    assert_eq!(cell.c, 't');
    assert_eq!(cell.bg, Color::Indexed(7));
    assert_eq!(cell.fg, Color::Named(NamedColor::Foreground));
    assert_eq!(cell.flags, Flags::empty());
    assert_eq!(cell.extra, [' '; 5]);
}

#[test]
fn flag_accessors_and_fast_eq() {
    let mut a = Cell::default();
    a.flags = Flags::dim_bold();
    assert!(a.bold() && a.dim() && !a.inverse());
    a.flags_mut().inverse = true;
    assert!(a.inverse());
    assert!(a.flags().inverse);
    let b = Cell::new('q', Color::Indexed(1), Color::Named(NamedColor::Background));
    assert!(a.fast_eq(&b));
    let c = Cell::new('q', Color::Indexed(1), Color::Indexed(2));
    assert!(!a.fast_eq(&c));
}

#[test]
fn flag_bits_round_trip() {
    let mut f = Flags::empty();
    f.inverse = true;
    f.dim = true;
    f.strikeout = true;
    assert_eq!(f.bits(), 1 | 128 | 512);
    assert_eq!(Flags::from_bits(f.bits()), f);
    assert_eq!(Flags::from_bits(0), Flags::empty());
    assert_eq!(Flags::bold_italic().bits(), 6);
    assert_eq!(Flags::dim_bold().bits(), 130);
}

#[test]
fn named_color_slots() {
    assert_eq!(NamedColor::Black.index(), 0);
    assert_eq!(NamedColor::BrightWhite.index(), 15);
    assert_eq!(NamedColor::Foreground.index(), 256);
    assert_eq!(NamedColor::Background.index(), 257);
    assert_eq!(NamedColor::DimBlack.index(), 258);
    assert_eq!(NamedColor::DimForeground.index(), 267);
}
