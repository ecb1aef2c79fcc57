//! The resolved color theme that the palette is computed from.

use vstd::prelude::*;

use crate::ansi::Rgb;

verus! {

/// The default foreground and background, with their optional variants.
#[derive(Debug, Clone, Copy, PartialEq, Eq, Structural)]
pub struct PrimaryColors {
    pub background: Rgb,
    pub foreground: Rgb,
    pub bright_foreground: Option<Rgb>,
    pub dim_foreground: Option<Rgb>,
}

/// A set of the eight standard colors.
#[derive(Debug, Clone, Copy, PartialEq, Eq, Structural)]
pub struct AnsiColors {
    pub black: Rgb,
    pub red: Rgb,
    pub green: Rgb,
    pub yellow: Rgb,
    pub blue: Rgb,
    pub magenta: Rgb,
    pub cyan: Rgb,
    pub white: Rgb,
}

impl AnsiColors {
    /// The `k`-th color of the set, in the order black, red, green, yellow,
    /// blue, magenta, cyan, white.
    pub open spec fn spec_at(self, k: int) -> Rgb {
        if k == 0 {
            self.black
        } else if k == 1 {
            self.red
        } else if k == 2 {
            self.green
        } else if k == 3 {
            self.yellow
        } else if k == 4 {
            self.blue
        } else if k == 5 {
            self.magenta
        } else if k == 6 {
            self.cyan
        } else {
            self.white
        }
    }

    /// The `k`-th color of the set.
    pub fn at(&self, k: usize) -> (r: Rgb)
        requires
            k < 8,
        ensures
            r == self.spec_at(k as int),
    {
        if k == 0 {
            self.black
        } else if k == 1 {
            self.red
        } else if k == 2 {
            self.green
        } else if k == 3 {
            self.yellow
        } else if k == 4 {
            self.blue
        } else if k == 5 {
            self.magenta
        } else if k == 6 {
            self.cyan
        } else {
            self.white
        }
    }
}

/// A theme color for one absolute slot of the 256-color space.
#[derive(Debug, Clone, Copy, PartialEq, Eq, Structural)]
pub struct IndexedColor {
    pub index: u8,
    pub color: Rgb,
}

impl IndexedColor {
    /// The slot the color is for.
    pub fn index(&self) -> (r: u8)
        ensures
            r == self.index,
    {
        self.index
    }
}

/// The theme.
#[derive(Debug, Clone)]
pub struct Colors {
    pub primary: PrimaryColors,
    pub normal: AnsiColors,
    pub bright: AnsiColors,
    pub dim: Option<AnsiColors>,
    pub indexed_colors: Vec<IndexedColor>,
}

} // verus!
