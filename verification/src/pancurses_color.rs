//! RGB colors in curses units (0..=1000 per channel), color pairs, and the
//! fixed RGB arrangement palettes used to map arbitrary colors onto at most
//! 256 terminal colors.

use vstd::prelude::*;
use vstd::arithmetic::div_mod::lemma_fundamental_div_mod_converse;

verus! {

/// A color as curses stores it: each channel in the range `0..=1000`.
#[derive(Debug, Copy, Clone, Hash, PartialEq, Eq, Structural)]
pub struct PancursesColor {
    pub r: i16,
    pub g: i16,
    pub b: i16,
}

impl PancursesColor {
    pub fn new(r: i16, g: i16, b: i16) -> (color: Self)
        ensures
            color == (PancursesColor { r, g, b }),
    {
        PancursesColor { r, g, b }
    }
}

impl Default for PancursesColor {
    /// Full white.
    fn default() -> (color: Self)
        ensures
            color == (PancursesColor { r: 1000, g: 1000, b: 1000 }),
    {
        PancursesColor { r: 1000, g: 1000, b: 1000 }
    }
}

/// A foreground / background pair of curses colors.
#[derive(Debug, Copy, Clone, Hash, PartialEq, Eq, Structural)]
pub struct PancursesColorPair {
    pub foreground: PancursesColor,
    pub background: PancursesColor,
}

impl PancursesColorPair {
    pub fn new(foreground: PancursesColor, background: PancursesColor) -> (pair: Self)
        ensures
            pair == (PancursesColorPair { foreground, background }),
    {
        PancursesColorPair { foreground, background }
    }
}

impl Default for PancursesColorPair {
    /// White text on a black background.
    fn default() -> (pair: Self)
        ensures
            pair == (PancursesColorPair {
                foreground: PancursesColor { r: 1000, g: 1000, b: 1000 },
                background: PancursesColor { r: 0, g: 0, b: 0 },
            }),
    {
        PancursesColorPair::new(PancursesColor::new(1000, 1000, 1000), PancursesColor::new(0, 0, 0))
    }
}

/// The colors of an arrangement palette: every combination of one red, one
/// green and one blue level, with red varying slowest and blue fastest.
pub open spec fn palette_grid(reds: Seq<u8>, greens: Seq<u8>, blues: Seq<u8>) -> Seq<(u8, u8, u8)> {
    Seq::new(
        reds.len() * greens.len() * blues.len(),
        |n: int|
            (
                reds[(n / blues.len() as int) / greens.len() as int],
                greens[(n / blues.len() as int) % greens.len() as int],
                blues[n % blues.len() as int],
            ),
    )
}

/// The position in `palette_grid` of the combination of the `i`th red, the
/// `j`th green and the `k`th blue level.
pub open spec fn grid_index(i: int, j: int, k: int, green_count: int, blue_count: int) -> int {
    (i * green_count + j) * blue_count + k
}

/// Where the combination `(i, j, k)` lies in the grid, and what it holds.
pub proof fn lemma_grid_index(reds: Seq<u8>, greens: Seq<u8>, blues: Seq<u8>, i: int, j: int, k: int)
    requires
        0 <= i < reds.len(),
        0 <= j < greens.len(),
        0 <= k < blues.len(),
    ensures
        0 <= grid_index(i, j, k, greens.len() as int, blues.len() as int) < palette_grid(
            reds,
            greens,
            blues,
        ).len(),
        palette_grid(reds, greens, blues)[grid_index(i, j, k, greens.len() as int, blues.len() as int)]
            == (reds[i], greens[j], blues[k]),
{
    let g = greens.len() as int;
    let b = blues.len() as int;
    let r = reds.len() as int;
    let n = grid_index(i, j, k, g, b);
    let q = i * g + j;
    assert(0 <= q < r * g) by (nonlinear_arith)
        requires
            0 <= i < r,
            0 <= j < g,
            q == i * g + j,
    ;
    assert(0 <= n < r * g * b) by (nonlinear_arith)
        requires
            0 <= q < r * g,
            0 <= k < b,
            n == q * b + k,
    ;
    lemma_fundamental_div_mod_converse(n, b, q, k);
    lemma_fundamental_div_mod_converse(q, g, i, j);
}


/// Looking a color up by level indices in a palette built from given levels
/// is always possible for in-range indices, and yields exactly the
/// combination of the chosen red, green and blue levels.
pub proof fn lemma_palette_lookup_yields_levels(
    palette: &PancursesPalette,
    reds: Seq<u8>,
    greens: Seq<u8>,
    blues: Seq<u8>,
    red_index: u8,
    green_index: u8,
    blue_index: u8,
)
    requires
        reds.len() * greens.len() * blues.len() <= 256,
        palette.colors() == palette_grid(reds, greens, blues),
        palette.red_fac() == (greens.len() * blues.len()) as u8,
        palette.green_fac() == blues.len() as u8,
        red_index < reds.len(),
        green_index < greens.len(),
        blue_index < blues.len(),
    ensures
        red_index * palette.red_fac() <= 255,
        green_index * palette.green_fac() <= 255,
        red_index * palette.red_fac() + green_index * palette.green_fac() + blue_index <= 255,
        red_index * palette.red_fac() + green_index * palette.green_fac() + blue_index
            < palette.colors().len(),
        palette.colors()[red_index * palette.red_fac() + green_index * palette.green_fac()
            + blue_index] == (reds[red_index as int], greens[green_index as int], blues[blue_index as int]),
{
    let r = reds.len() as int;
    let g = greens.len() as int;
    let b = blues.len() as int;
    let i = red_index as int;
    let j = green_index as int;
    let k = blue_index as int;
    lemma_grid_index(reds, greens, blues, i, j, k);
    let n = grid_index(i, j, k, g, b);
    assert(n == i * (g * b) + j * b + k) by (nonlinear_arith)
        requires n == (i * g + j) * b + k,
    ;
    assert(i * (g * b) + j * b + k < r * g * b);
    assert(g * b <= 256 && b <= 256) by (nonlinear_arith)
        requires r * g * b <= 256, 1 <= r, 1 <= g, 1 <= b,
    ;
    if g * b == 256 {
        assert(r == 1) by (nonlinear_arith)
            requires r * g * b <= 256, g * b == 256, 1 <= r,
        ;
        assert(i == 0);
    } else {
        assert(palette.red_fac() == g * b);
    }
    if b == 256 {
        assert(g == 1) by (nonlinear_arith)
            requires g * b <= 256, b == 256, 1 <= g,
        ;
        assert(j == 0);
    } else {
        assert(palette.green_fac() == b);
    }
    assert(i * palette.red_fac() == i * (g * b));
    assert(j * palette.green_fac() == j * b);
    assert(i * (g * b) <= i * (g * b) + j * b + k) by (nonlinear_arith)
        requires 0 <= j, 0 <= b, 0 <= k,
    ;
    assert(j * b <= i * (g * b) + j * b + k) by (nonlinear_arith)
        requires 0 <= i, 0 <= g, 0 <= b, 0 <= k,
    ;
}

/// Six evenly spaced levels: 0x00, 0x33, 0x66, 0x99, 0xCC, 0xFF.
pub open spec fn six_levels() -> Seq<u8> {
    seq![0x00u8, 0x33u8, 0x66u8, 0x99u8, 0xCCu8, 0xFFu8]
}

/// Seven evenly spaced levels: 0x00, 0x2A, 0x55, 0x80, 0xAA, 0xD4, 0xFF.
pub open spec fn seven_levels() -> Seq<u8> {
    seq![0x00u8, 0x2Au8, 0x55u8, 0x80u8, 0xAAu8, 0xD4u8, 0xFFu8]
}

/// Eight evenly spaced levels: 0x00, 0x24, 0x49, 0x6D, 0x92, 0xB6, 0xDB, 0xFF.
pub open spec fn eight_levels() -> Seq<u8> {
    seq![0x00u8, 0x24u8, 0x49u8, 0x6Du8, 0x92u8, 0xB6u8, 0xDBu8, 0xFFu8]
}

/// Five evenly spaced levels: 0x00, 0x40, 0x80, 0xBF, 0xFF.
pub open spec fn five_levels() -> Seq<u8> {
    seq![0x00u8, 0x40u8, 0x80u8, 0xBFu8, 0xFFu8]
}

/// A palette made of every combination of a few red, green and blue levels.
pub struct PancursesPalette {
    colors: Vec<(u8, u8, u8)>,
    red_count: u8,
    green_count: u8,
    blue_count: u8,
    red_fac: u8,
    green_fac: u8,
}

impl PancursesPalette {
    /// The palette's colors, in lookup order.
    pub closed spec fn colors(&self) -> Seq<(u8, u8, u8)> {
        self.colors@
    }

    /// The number of red levels (truncated to eight bits, as stored).
    pub closed spec fn red_count(&self) -> u8 {
        self.red_count
    }

    pub closed spec fn green_count(&self) -> u8 {
        self.green_count
    }

    pub closed spec fn blue_count(&self) -> u8 {
        self.blue_count
    }

    /// How far apart in the color list two neighbouring red levels are.
    pub closed spec fn red_fac(&self) -> u8 {
        self.red_fac
    }

    /// How far apart in the color list two neighbouring green levels are.
    pub closed spec fn green_fac(&self) -> u8 {
        self.green_fac
    }

    /// Builds the palette of all combinations of the given levels.
    /// Panics (so is not callable) when there are no red or no green levels,
    /// or when the palette would hold more than 256 colors.
    pub fn new(reds: &[u8], greens: &[u8], blues: &[u8]) -> (palette: Self)
        requires
            reds@.len() > 0,
            greens@.len() > 0,
            reds@.len() * greens@.len() <= usize::MAX,
            reds@.len() * greens@.len() * blues@.len() <= 256,
        ensures
            palette.colors() == palette_grid(reds@, greens@, blues@),
            palette.red_count() == reds@.len() as u8,
            palette.green_count() == greens@.len() as u8,
            palette.blue_count() == blues@.len() as u8,
            palette.red_fac() == (greens@.len() * blues@.len()) as u8,
            palette.green_fac() == blues@.len() as u8,
    {
        let red_count = reds.len();
        let green_count = greens.len();
        let blue_count = blues.len();
        let ghost r = red_count as int;
        let ghost g = green_count as int;
        let ghost b = blue_count as int;
        assert(r * g * b <= usize::MAX);
        let color_count = red_count * green_count * blue_count;
        let red_fac = color_count / red_count;
        assert(red_fac == g * b) by {
            assert(r * g * b == (g * b) * r + 0) by (nonlinear_arith);
            lemma_fundamental_div_mod_converse(r * g * b, r, g * b, 0);
        }
        let green_fac = red_fac / green_count;
        assert(green_fac == b) by {
            lemma_fundamental_div_mod_converse(g * b, g, b, 0);
            assert(g * b == b * g + 0) by (nonlinear_arith);
        }
        assert(g * b <= 256) by (nonlinear_arith)
            requires r >= 1, r * g * b <= 256, g >= 0, b >= 0,
        ;
        let ghost grid = palette_grid(reds@, greens@, blues@);
        let mut colors: Vec<(u8, u8, u8)> = Vec::new();
        let mut i: usize = 0;
        while i < red_count
            invariant
                red_count == reds@.len(),
                green_count == greens@.len(),
                blue_count == blues@.len(),
                r == red_count,
                g == green_count,
                b == blue_count,
                grid == palette_grid(reds@, greens@, blues@),
                0 <= i <= red_count,
                colors@ == grid.subrange(0, i * g * b),
                r * g * b <= 256,
            decreases red_count - i,
        {
            let mut j: usize = 0;
            while j < green_count
                invariant
                    red_count == reds@.len(),
                    green_count == greens@.len(),
                    blue_count == blues@.len(),
                    r == red_count,
                    g == green_count,
                    b == blue_count,
                    grid == palette_grid(reds@, greens@, blues@),
                    0 <= i < red_count,
                    0 <= j <= green_count,
                    colors@ == grid.subrange(0, (i * g + j) * b),
                    r * g * b <= 256,
                decreases green_count - j,
            {
                let mut k: usize = 0;
                while k < blue_count
                    invariant
                        red_count == reds@.len(),
                        green_count == greens@.len(),
                        blue_count == blues@.len(),
                        r == red_count,
                        g == green_count,
                        b == blue_count,
                        grid == palette_grid(reds@, greens@, blues@),
                        0 <= i < red_count,
                        0 <= j < green_count,
                        0 <= k <= blue_count,
                        colors@ == grid.subrange(0, (i * g + j) * b + k),
                        r * g * b <= 256,
                    decreases blue_count - k,
                {
                    proof {
                        lemma_grid_index(reds@, greens@, blues@, i as int, j as int, k as int);
                    }
                    colors.push((reds[i], greens[j], blues[k]));
                    assert(colors@ =~= grid.subrange(0, (i * g + j) * b + k + 1));
                    k = k + 1;
                }
                assert((i * g + j) * b + b == (i * g + (j + 1)) * b) by (nonlinear_arith);
                j = j + 1;
            }
            assert((i * g + g) * b == (i + 1) * g * b) by (nonlinear_arith);
            i = i + 1;
        }
        assert(colors@ =~= grid);
        PancursesPalette {
            colors,
            red_count: red_count as u8,
            green_count: green_count as u8,
            blue_count: blue_count as u8,
            red_fac: red_fac as u8,
            green_fac: green_fac as u8,
        }
    }

    /// 216 colors: six levels of red, green and blue.
    pub fn new_666() -> (palette: Self)
        ensures
            palette.colors() == palette_grid(six_levels(), six_levels(), six_levels()),
            palette.red_count() == 6 && palette.green_count() == 6 && palette.blue_count() == 6,
            palette.red_fac() == 36 && palette.green_fac() == 6,
    {
        let reds: [u8; 6] = [0x00, 0x33, 0x66, 0x99, 0xCC, 0xFF];
        let greens: [u8; 6] = [0x00, 0x33, 0x66, 0x99, 0xCC, 0xFF];
        let blues: [u8; 6] = [0x00, 0x33, 0x66, 0x99, 0xCC, 0xFF];
        assert(reds@ =~= six_levels());
        assert(greens@ =~= six_levels());
        assert(blues@ =~= six_levels());
        PancursesPalette::new(reds.as_slice(), greens.as_slice(), blues.as_slice())
    }

    /// 252 colors: six levels of red and blue, seven of green.
    pub fn new_676() -> (palette: Self)
        ensures
            palette.colors() == palette_grid(six_levels(), seven_levels(), six_levels()),
            palette.red_count() == 6 && palette.green_count() == 7 && palette.blue_count() == 6,
            palette.red_fac() == 42 && palette.green_fac() == 6,
    {
        let reds: [u8; 6] = [0x00, 0x33, 0x66, 0x99, 0xCC, 0xFF];
        let greens: [u8; 7] = [0x00, 0x2A, 0x55, 0x80, 0xAA, 0xD4, 0xFF];
        let blues: [u8; 6] = [0x00, 0x33, 0x66, 0x99, 0xCC, 0xFF];
        assert(reds@ =~= six_levels());
        assert(greens@ =~= seven_levels());
        assert(blues@ =~= six_levels());
        PancursesPalette::new(reds.as_slice(), greens.as_slice(), blues.as_slice())
    }

    /// 240 colors: six levels of red, eight of green, five of blue.
    pub fn new_685() -> (palette: Self)
        ensures
            palette.colors() == palette_grid(six_levels(), eight_levels(), five_levels()),
            palette.red_count() == 6 && palette.green_count() == 8 && palette.blue_count() == 5,
            palette.red_fac() == 40 && palette.green_fac() == 5,
    {
        let reds: [u8; 6] = [0x00, 0x33, 0x66, 0x99, 0xCC, 0xFF];
        let greens: [u8; 8] = [0x00, 0x24, 0x49, 0x6D, 0x92, 0xB6, 0xDB, 0xFF];
        let blues: [u8; 5] = [0x00, 0x40, 0x80, 0xBF, 0xFF];
        assert(reds@ =~= six_levels());
        assert(greens@ =~= eight_levels());
        assert(blues@ =~= five_levels());
        PancursesPalette::new(reds.as_slice(), greens.as_slice(), blues.as_slice())
    }

    /// The number of red, green and blue levels, which quantizing a color
    /// to level indices needs.
    pub fn level_counts(&self) -> (counts: (u8, u8, u8))
        ensures
            counts == (self.red_count(), self.green_count(), self.blue_count()),
    {
        (self.red_count, self.green_count, self.blue_count)
    }

    /// The color at the given red, green and blue level indices: the lookup
    /// that follows quantizing a color's channels to level indices.
    /// Panics (so is not callable) when the eight-bit index arithmetic
    /// overflows or the index falls outside the palette.
    pub fn get_color_by_index(&self, red_index: u8, green_index: u8, blue_index: u8) -> (color: (
        u8,
        u8,
        u8,
    ))
        requires
            red_index * self.red_fac() <= 255,
            green_index * self.green_fac() <= 255,
            red_index * self.red_fac() + green_index * self.green_fac() + blue_index <= 255,
            red_index * self.red_fac() + green_index * self.green_fac() + blue_index
                < self.colors().len(),
        ensures
            color == self.colors()[red_index * self.red_fac() + green_index * self.green_fac()
                + blue_index],
    {
        let red_index = red_index * self.red_fac;
        let green_index = green_index * self.green_fac;
        let color_index = red_index + green_index + blue_index;
        self.colors[color_index as usize]
    }

    /// The color at the given level indices, or `None` where the lookup
    /// would panic: when the eight-bit index arithmetic overflows or the
    /// index falls outside the palette.
    pub fn checked_color_by_index(&self, red_index: u8, green_index: u8, blue_index: u8) -> (color: Option<(u8, u8, u8)>)
        ensures
            ({
                let red = red_index * self.red_fac();
                let green = green_index * self.green_fac();
                let index = red + green + blue_index;
                match color {
                    Some(c) => {
                        &&& red <= 255
                        &&& green <= 255
                        &&& index <= 255
                        &&& index < self.colors().len()
                        &&& c == self.colors()[index]
                    },
                    None => !(red <= 255 && green <= 255 && index <= 255 && index < self.colors().len()),
                }
            }),
    {
        let (ri, rf, gi, gf) = (red_index as u32, self.red_fac as u32, green_index as u32, self.green_fac as u32);
        assert(ri * rf <= 255 * 255) by (nonlinear_arith)
            requires
                ri <= 255,
                rf <= 255,
        ;
        assert(gi * gf <= 255 * 255) by (nonlinear_arith)
            requires
                gi <= 255,
                gf <= 255,
        ;
        let red = ri * rf;
        let green = gi * gf;
        if red <= 255 && green <= 255 && red + green + (blue_index as u32) <= 255
            && ((red + green + blue_index as u32) as usize) < self.colors.len() {
            Some(self.get_color_by_index(red_index, green_index, blue_index))
        } else {
            None
        }
    }
}

} // verus!
