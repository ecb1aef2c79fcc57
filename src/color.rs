//! The indexed color palette: a default layer computed from the theme, and
//! overrides that shadow it slot by slot.

use vstd::prelude::*;

use crate::ansi::{Rgb, COUNT};
use crate::config::{AnsiColors, Colors, IndexedColor};

verus! {

/// Palette slot of the first color of the 6x6x6 cube.
pub const CUBE_START: usize = 16;

/// Palette slot of the default foreground.
pub const FOREGROUND: usize = 256;

/// Palette slot of the default background.
pub const BACKGROUND: usize = 257;

/// Palette slot of the first dim color.
pub const DIM_START: usize = 258;

/// Palette slot of the bright foreground.
pub const BRIGHT_FOREGROUND: usize = 266;

/// Palette slot of the dim foreground.
pub const DIM_FOREGROUND: usize = 267;

/// A channel scaled by the dim factor 0.66, rounded down.
pub open spec fn dim_channel(c: u8) -> u8 {
    (c as nat * 66 / 100) as u8
}

/// A color scaled by the dim factor 0.66, channel by channel.
pub open spec fn dim_rgb(c: Rgb) -> Rgb {
    Rgb { r: dim_channel(c.r), g: dim_channel(c.g), b: dim_channel(c.b) }
}

/// One channel of the color cube at `level` (0 to 5).
pub open spec fn cube_channel(level: nat) -> u8 {
    if level == 0 {
        0
    } else {
        (level * 40 + 55) as u8
    }
}

/// The computed color of cube position `k` (0 to 215): red counts by 36,
/// green by 6, blue by 1.
pub open spec fn cube_color(k: nat) -> Rgb {
    Rgb { r: cube_channel(k / 36), g: cube_channel((k / 6) % 6), b: cube_channel(k % 6) }
}

/// The computed color of gray ramp position `k` (0 to 23).
pub open spec fn gray_color(k: nat) -> Rgb {
    let v = (k * 10 + 8) as u8;
    Rgb { r: v, g: v, b: v }
}

/// The color that the first theme entry for `index` gives, if any.
pub open spec fn indexed_override(s: Seq<IndexedColor>, index: u8) -> Option<Rgb>
    decreases s.len(),
{
    if s.len() == 0 {
        None
    } else if s[0].index == index {
        Some(s[0].color)
    } else {
        indexed_override(s.drop_first(), index)
    }
}

/// The theme's entry for `index` if there is one, else `computed`.
pub open spec fn or_indexed(colors: Colors, index: nat, computed: Rgb) -> Rgb {
    match indexed_override(colors.indexed_colors@, index as u8) {
        Some(c) => c,
        None => computed,
    }
}

/// The default of palette slot `i` under the theme `colors`.
pub open spec fn default_color(colors: Colors, i: nat) -> Rgb {
    if i < 8 {
        colors.normal.spec_at(i as int)
    } else if i < 16 {
        colors.bright.spec_at(i - 8)
    } else if i < 232 {
        or_indexed(colors, i, cube_color((i - 16) as nat))
    } else if i < 256 {
        or_indexed(colors, i, gray_color((i - 232) as nat))
    } else if i == 256 {
        colors.primary.foreground
    } else if i == 257 {
        colors.primary.background
    } else if i < 266 {
        match colors.dim {
            Some(d) => d.spec_at(i - 258),
            None => dim_rgb(colors.normal.spec_at(i - 258)),
        }
    } else if i == 266 {
        match colors.primary.bright_foreground {
            Some(c) => c,
            None => colors.primary.foreground,
        }
    } else {
        match colors.primary.dim_foreground {
            Some(c) => c,
            None => dim_rgb(colors.primary.foreground),
        }
    }
}

/// The whole default layer under the theme `colors`.
pub open spec fn theme_defaults(colors: Colors) -> Seq<Rgb> {
    Seq::new(COUNT as nat, |i: int| default_color(colors, i as nat))
}

fn dim_u8(c: u8) -> (r: u8)
    ensures
        r == dim_channel(c),
{
    ((c as u32) * 66 / 100) as u8
}

fn dim(c: Rgb) -> (r: Rgb)
    ensures
        r == dim_rgb(c),
{
    Rgb { r: dim_u8(c.r), g: dim_u8(c.g), b: dim_u8(c.b) }
}

/// Each color of `set` scaled by the dim factor.
fn dim_set(set: &AnsiColors) -> (r: AnsiColors)
    ensures
        forall|k: int| 0 <= k < 8 ==> #[trigger] r.spec_at(k) == dim_rgb(set.spec_at(k)),
{
    AnsiColors {
        black: dim(set.black),
        red: dim(set.red),
        green: dim(set.green),
        yellow: dim(set.yellow),
        blue: dim(set.blue),
        magenta: dim(set.magenta),
        cyan: dim(set.cyan),
        white: dim(set.white),
    }
}

/// The color that the first entry of `list` for `index` gives, if any.
fn find_indexed(list: &Vec<IndexedColor>, index: u8) -> (r: Option<Rgb>)
    ensures
        r == indexed_override(list@, index),
{
    let mut i: usize = 0;
    assert(list@.subrange(0, list@.len() as int) =~= list@);
    while i < list.len()
        invariant
            i <= list@.len(),
            indexed_override(list@, index) == indexed_override(
                list@.subrange(i as int, list@.len() as int),
                index,
            ),
        decreases list@.len() - i,
    {
        let entry = list[i];
        if entry.index() == index {
            return Some(entry.color);
        }
        assert(list@.subrange(i as int, list@.len() as int).drop_first() =~= list@.subrange(
            i + 1,
            list@.len() as int,
        ));
        i += 1;
    }
    None
}

/// The palette.
pub struct List {
    active: Vec<Option<Rgb>>,
    default: Vec<Rgb>,
}

impl List {
    /// Both layers have one entry per slot.
    pub closed spec fn wf(&self) -> bool {
        &&& self.active@.len() == COUNT
        &&& self.default@.len() == COUNT
    }

    /// The override of each slot, `None` where the slot shows its default.
    pub closed spec fn overrides(&self) -> Seq<Option<Rgb>> {
        self.active@
    }

    /// The default of each slot.
    pub closed spec fn defaults(&self) -> Seq<Rgb> {
        self.default@
    }

    /// The color that slot `i` shows: its override if it has one, else its
    /// default.
    pub open spec fn resolved(&self, i: int) -> Rgb {
        match self.overrides()[i] {
            Some(c) => c,
            None => self.defaults()[i],
        }
    }

    /// Both layers of a well-formed palette have one entry per slot.
    pub proof fn lemma_sizes(&self)
        requires
            self.wf(),
        ensures
            self.overrides().len() == COUNT,
            self.defaults().len() == COUNT,
    {
    }

    /// `self` is `before` with the override of slot `i` set to `v`.
    pub open spec fn overridden(&self, before: &List, i: int, v: Option<Rgb>) -> bool {
        &&& self.overrides() == before.overrides().update(i, v)
        &&& self.defaults() == before.defaults()
    }

    /// A palette with no override, its defaults computed from `colors`.
    pub fn from(colors: &Colors) -> (r: List)
        ensures
            r.wf(),
            r.overrides() == Seq::new(COUNT as nat, |i: int| None::<Rgb>),
            r.defaults() == theme_defaults(*colors),
    {
        let mut active: Vec<Option<Rgb>> = Vec::new();
        let mut default: Vec<Rgb> = Vec::new();
        let mut i: usize = 0;
        while i < COUNT
            invariant
                i <= COUNT,
                active@ == Seq::new(i as nat, |j: int| None::<Rgb>),
                default@.len() == i,
            decreases COUNT - i,
        {
            active.push(None);
            default.push(Rgb { r: 0, g: 0, b: 0 });
            i += 1;
            assert(active@ =~= Seq::new(i as nat, |j: int| None::<Rgb>));
        }
        let mut list = List { active, default };
        list.update_defaults(colors);
        list
    }

    /// The color that slot `index` shows.
    pub fn get(&self, index: usize) -> (r: &Rgb)
        requires
            self.wf(),
            index < COUNT,
        ensures
            *r == self.resolved(index as int),
    {
        match &self.active[index] {
            Some(c) => c,
            None => &self.default[index],
        }
    }

    /// The override of slot `index`, if any.
    pub fn get_modified(&self, index: usize) -> (r: Option<Rgb>)
        requires
            self.wf(),
            index < COUNT,
        ensures
            r == self.overrides()[index as int],
    {
        self.active[index]
    }

    /// Overrides slot `index` with `color`.
    pub fn set(&mut self, index: usize, color: Rgb)
        requires
            old(self).wf(),
            index < COUNT,
        ensures
            final(self).wf(),
            final(self).overridden(old(self), index as int, Some(color)),
    {
        self.active.set(index, Some(color));
    }

    /// Drops the override of slot `index`, which shows its default again.
    pub fn reset(&mut self, index: usize)
        requires
            old(self).wf(),
            index < COUNT,
        ensures
            final(self).wf(),
            final(self).overridden(old(self), index as int, None),
    {
        self.active.set(index, None);
    }

    /// Recomputes the default layer from `colors`; the overrides stay.
    pub fn update_defaults(&mut self, colors: &Colors)
        requires
            old(self).wf(),
        ensures
            final(self).wf(),
            final(self).overrides() == old(self).overrides(),
            final(self).defaults() == theme_defaults(*colors),
    {
        self.fill_named(colors);
        self.fill_cube(colors);
        self.fill_gray_ramp(colors);
        assert(self.default@ =~= theme_defaults(*colors));
    }

    /// Writes the eight colors of `set` from slot `start` on.
    fn fill_set(&mut self, start: usize, set: &AnsiColors)
        requires
            old(self).wf(),
            start + 8 <= COUNT,
        ensures
            final(self).active@ == old(self).active@,
            final(self).default@.len() == old(self).default@.len(),
            forall|i: int|
                0 <= i < old(self).default@.len() ==> #[trigger] final(self).default@[i] == if start
                    <= i < start + 8 {
                    set.spec_at(i - start)
                } else {
                    old(self).default@[i]
                },
    {
        let mut k: usize = 0;
        while k < 8
            invariant
                k <= 8,
                start + 8 <= COUNT,
                self.active@ == old(self).active@,
                self.default@.len() == COUNT,
                forall|i: int|
                    0 <= i < COUNT ==> #[trigger] self.default@[i] == if start <= i < start + k {
                        set.spec_at(i - start)
                    } else {
                        old(self).default@[i]
                    },
            decreases 8 - k,
        {
            let c = set.at(k);
            self.default.set(start + k, c);
            k += 1;
        }
    }

    /// The named slots: standard, bright, primary and dim colors.
    fn fill_named(&mut self, colors: &Colors)
        requires
            old(self).wf(),
        ensures
            final(self).active@ == old(self).active@,
            final(self).default@.len() == old(self).default@.len(),
            forall|i: int|
                0 <= i < old(self).default@.len() ==> #[trigger] final(self).default@[i] == if i
                    < 16 || 256 <= i {
                    default_color(*colors, i as nat)
                } else {
                    old(self).default@[i]
                },
    {
        self.fill_set(0, &colors.normal);
        self.fill_set(8, &colors.bright);
        let bright_fg = match colors.primary.bright_foreground {
            Some(c) => c,
            None => colors.primary.foreground,
        };
        self.default.set(BRIGHT_FOREGROUND, bright_fg);
        self.default.set(FOREGROUND, colors.primary.foreground);
        self.default.set(BACKGROUND, colors.primary.background);
        let dim_fg = match colors.primary.dim_foreground {
            Some(c) => c,
            None => dim(colors.primary.foreground),
        };
        self.default.set(DIM_FOREGROUND, dim_fg);
        let dims = match colors.dim {
            Some(d) => d,
            None => dim_set(&colors.normal),
        };
        self.fill_set(DIM_START, &dims);
    }

    /// The 6x6x6 color cube, slots 16 to 231.
    fn fill_cube(&mut self, colors: &Colors)
        requires
            old(self).wf(),
        ensures
            final(self).active@ == old(self).active@,
            final(self).default@.len() == old(self).default@.len(),
            forall|i: int|
                0 <= i < old(self).default@.len() ==> #[trigger] final(self).default@[i] == if 16
                    <= i < 232 {
                    default_color(*colors, i as nat)
                } else {
                    old(self).default@[i]
                },
    {
        let mut index: usize = CUBE_START;
        let mut r: u8 = 0;
        while r < 6
            invariant
                r <= 6,
                index == 16 + 36 * r,
                self.active@ == old(self).active@,
                self.default@.len() == COUNT,
                forall|i: int|
                    0 <= i < COUNT ==> #[trigger] self.default@[i] == if 16 <= i < index {
                        default_color(*colors, i as nat)
                    } else {
                        old(self).default@[i]
                    },
            decreases 6 - r,
        {
            let mut g: u8 = 0;
            while g < 6
                invariant
                    r < 6,
                    g <= 6,
                    index == 16 + 36 * r + 6 * g,
                    self.active@ == old(self).active@,
                    self.default@.len() == COUNT,
                    forall|i: int|
                        0 <= i < COUNT ==> #[trigger] self.default@[i] == if 16 <= i < index {
                            default_color(*colors, i as nat)
                        } else {
                            old(self).default@[i]
                        },
                decreases 6 - g,
            {
                let mut b: u8 = 0;
                while b < 6
                    invariant
                        r < 6,
                        g < 6,
                        b <= 6,
                        index == 16 + 36 * r + 6 * g + b,
                        self.active@ == old(self).active@,
                        self.default@.len() == COUNT,
                        forall|i: int|
                            0 <= i < COUNT ==> #[trigger] self.default@[i] == if 16 <= i < index {
                                default_color(*colors, i as nat)
                            } else {
                                old(self).default@[i]
                            },
                    decreases 6 - b,
                {
                    let color = match find_indexed(&colors.indexed_colors, index as u8) {
                        Some(c) => c,
                        None => Rgb {
                            r: if r == 0 { 0 } else { r * 40 + 55 },
                            g: if g == 0 { 0 } else { g * 40 + 55 },
                            b: if b == 0 { 0 } else { b * 40 + 55 },
                        },
                    };
                    proof {
                        lemma_cube_position(r as nat, g as nat, b as nat);
                    }
                    self.default.set(index, color);
                    index += 1;
                    b += 1;
                }
                g += 1;
            }
            r += 1;
        }
    }

    /// The 24-step gray ramp, slots 232 to 255.
    fn fill_gray_ramp(&mut self, colors: &Colors)
        requires
            old(self).wf(),
        ensures
            final(self).active@ == old(self).active@,
            final(self).default@.len() == old(self).default@.len(),
            forall|i: int|
                0 <= i < old(self).default@.len() ==> #[trigger] final(self).default@[i] == if 232
                    <= i < 256 {
                    default_color(*colors, i as nat)
                } else {
                    old(self).default@[i]
                },
    {
        let mut i: u8 = 0;
        while i < 24
            invariant
                i <= 24,
                self.active@ == old(self).active@,
                self.default@.len() == COUNT,
                forall|j: int|
                    0 <= j < COUNT ==> #[trigger] self.default@[j] == if 232 <= j < 232 + i {
                        default_color(*colors, j as nat)
                    } else {
                        old(self).default@[j]
                    },
            decreases 24 - i,
        {
            let color_index: u8 = 16 + 216 + i;
            let value: u8 = i * 10 + 8;
            let color = match find_indexed(&colors.indexed_colors, color_index) {
                Some(c) => c,
                None => Rgb { r: value, g: value, b: value },
            };
            self.default.set(color_index as usize, color);
            i += 1;
        }
    }
}

/// After `set(i, c)` slot `i` shows `c`; after a following `reset(i)` it
/// shows its default again, the one last computed.
pub proof fn lemma_set_then_reset(l0: List, l1: List, l2: List, i: int, c: Rgb)
    requires
        0 <= i < COUNT,
        l0.wf(),
        l1.overridden(&l0, i, Some(c)),
        l2.overridden(&l1, i, None),
    ensures
        l1.resolved(i) == c,
        l2.resolved(i) == l0.defaults()[i],
{
    l0.lemma_sizes();
}

/// Once the defaults are computed from `colors`, the cube slot of levels
/// `r`, `g`, `b` shows the theme's entry for that slot if it has one, else
/// the channels given by the cube formula; provided the slot has no override.
pub proof fn lemma_cube_formula(l: List, colors: Colors, r: nat, g: nat, b: nat)
    requires
        l.wf(),
        l.defaults() == theme_defaults(colors),
        r < 6,
        g < 6,
        b < 6,
        l.overrides()[(16 + 36 * r + 6 * g + b) as int] is None,
    ensures
        l.resolved((16 + 36 * r + 6 * g + b) as int) == match indexed_override(
            colors.indexed_colors@,
            (16 + 36 * r + 6 * g + b) as u8,
        ) {
            Some(c) => c,
            None => Rgb { r: cube_channel(r), g: cube_channel(g), b: cube_channel(b) },
        },
{
    lemma_cube_position(r, g, b);
    assert(36 * r + 6 * g + b < 216) by (nonlinear_arith)
        requires
            r < 6,
            g < 6,
            b < 6,
    ;
}

/// Cube position `36r + 6g + b` splits back into its three levels.
proof fn lemma_cube_position(r: nat, g: nat, b: nat)
    requires
        r < 6,
        g < 6,
        b < 6,
    ensures
        (36 * r + 6 * g + b) / 36 == r,
        ((36 * r + 6 * g + b) / 6) % 6 == g,
        (36 * r + 6 * g + b) % 6 == b,
{
    assert((36 * r + 6 * g + b) / 36 == r) by (nonlinear_arith)
        requires
            r < 6,
            g < 6,
            b < 6,
    ;
    assert((36 * r + 6 * g + b) / 6 == 6 * r + g) by (nonlinear_arith)
        requires
            r < 6,
            g < 6,
            b < 6,
    ;
    assert((6 * r + g) % 6 == g) by (nonlinear_arith)
        requires
            g < 6,
    ;
    assert((36 * r + 6 * g + b) % 6 == b) by (nonlinear_arith)
        requires
            b < 6,
    ;
}

} // verus!
