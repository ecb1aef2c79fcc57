use alacritty_terminal::ansi::{NamedColor, Rgb, COUNT};
use alacritty_terminal::color::List;
use alacritty_terminal::config::{AnsiColors, Colors, IndexedColor, PrimaryColors};

fn rgb(r: u8, g: u8, b: u8) -> Rgb {
    Rgb { r, g, b }
}

fn set(base: u8) -> AnsiColors {
    AnsiColors {
        black: rgb(base, 0, 0),
        red: rgb(base, 1, 0),
        green: rgb(base, 2, 0),
        yellow: rgb(base, 3, 0),
        blue: rgb(base, 4, 0),
        magenta: rgb(base, 5, 0),
        cyan: rgb(base, 6, 0),
        white: rgb(base, 7, 0),
    }
}

fn theme() -> Colors {
    Colors {
        primary: PrimaryColors {
            background: rgb(0, 0, 1),
            foreground: rgb(100, 200, 255),
            bright_foreground: None,
            dim_foreground: None,
        },
        normal: set(10),
        bright: set(20),
        dim: None,
        indexed_colors: Vec::new(),
    }
}

#[test]
fn set_then_reset_restores_default() {
    let mut list = List::from(&theme());
    let before = *list.get(5);
    list.set(5, rgb(9, 9, 9));
    assert_eq!(*list.get(5), rgb(9, 9, 9));
    assert_eq!(list.get_modified(5), Some(rgb(9, 9, 9)));
    list.reset(5);
    assert_eq!(*list.get(5), before);
    assert_eq!(list.get_modified(5), None);
}

#[test]
fn overrides_survive_theme_reload() {
    let mut list = List::from(&theme());
    list.set(NamedColor::Foreground.index(), rgb(1, 1, 1));
    let mut other = theme();
    other.primary.foreground = rgb(50, 50, 50);
    list.update_defaults(&other);
    assert_eq!(*list.get(256), rgb(1, 1, 1));
    list.reset(256);
    assert_eq!(*list.get(256), rgb(50, 50, 50));
}

#[test]
fn named_slots_come_from_theme() {
    let list = List::from(&theme());
    assert_eq!(*list.get(0), rgb(10, 0, 0));
    assert_eq!(*list.get(7), rgb(10, 7, 0));
    assert_eq!(*list.get(8), rgb(20, 0, 0));
    assert_eq!(*list.get(15), rgb(20, 7, 0));
    assert_eq!(*list.get(NamedColor::Foreground.index()), rgb(100, 200, 255));
    assert_eq!(*list.get(NamedColor::Background.index()), rgb(0, 0, 1));
    assert_eq!(*list.get(NamedColor::BrightForeground.index()), rgb(100, 200, 255));
}

#[test]
fn dim_colors_are_scaled() {
    let list = List::from(&theme());
    assert_eq!(*list.get(NamedColor::DimForeground.index()), rgb(66, 132, 168));
    assert_eq!(*list.get(NamedColor::DimBlack.index()), rgb(6, 0, 0));
    assert_eq!(*list.get(NamedColor::DimWhite.index()), rgb(6, 4, 0));
}

#[test]
fn explicit_dim_and_bright_colors_win() {
    let mut colors = theme();
    colors.dim = Some(set(33));
    colors.primary.dim_foreground = Some(rgb(3, 3, 3));
    colors.primary.bright_foreground = Some(rgb(4, 4, 4));
    let list = List::from(&colors);
    assert_eq!(*list.get(NamedColor::DimRed.index()), rgb(33, 1, 0));
    assert_eq!(*list.get(NamedColor::DimForeground.index()), rgb(3, 3, 3));
    assert_eq!(*list.get(NamedColor::BrightForeground.index()), rgb(4, 4, 4));
}

#[test]
fn cube_follows_formula() {
    let list = List::from(&theme());
    assert_eq!(*list.get(16), rgb(0, 0, 0));
    assert_eq!(*list.get(16 + 36 + 12 + 3), rgb(95, 135, 175));
    assert_eq!(*list.get(231), rgb(255, 255, 255));
    assert_eq!(*list.get(21), rgb(0, 0, 255));
}

#[test]
fn cube_override_from_theme_wins() {
    let mut colors = theme();
    colors.indexed_colors.push(IndexedColor { index: 67, color: rgb(1, 2, 3) });
    colors.indexed_colors.push(IndexedColor { index: 67, color: rgb(7, 7, 7) });
    colors.indexed_colors.push(IndexedColor { index: 240, color: rgb(4, 5, 6) });
    colors.indexed_colors.push(IndexedColor { index: 3, color: rgb(8, 8, 8) });
    let list = List::from(&colors);
    assert_eq!(*list.get(67), rgb(1, 2, 3));
    assert_eq!(*list.get(68), rgb(95, 135, 215));
    assert_eq!(*list.get(240), rgb(4, 5, 6));
    assert_eq!(*list.get(3), rgb(10, 3, 0));
}

#[test]
fn gray_ramp_follows_formula() {
    let list = List::from(&theme());
    assert_eq!(*list.get(232), rgb(8, 8, 8));
    assert_eq!(*list.get(255), rgb(238, 238, 238));
    assert_eq!(COUNT, 268);
}
