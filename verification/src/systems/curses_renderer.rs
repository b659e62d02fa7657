//! Compositing the color and text framebuffers into curses cells.

use vstd::prelude::*;

use crate::components::curses_palette::CursesPalette;
use crate::curses_cell::{cell_with_pair, curses_cell};
use crate::primitive_types::{ColorKey, Vector2I};
use crate::systems::pancurses_renderer_system::lemma_cell_coordinates;

verus! {

/// One cell of the software framebuffers: its color, the palette entry that
/// color is nearest to, its depth in the color layer (-1 when nothing was
/// drawn), its character, and its depth in the text layer (-1 likewise).
#[derive(Debug, Copy, Clone, PartialEq, Eq, Structural)]
pub struct FramebufferCell {
    pub color: ColorKey,
    pub palette_index: usize,
    pub color_z: i64,
    pub c: char,
    pub char_z: i64,
}

/// The curses cell a framebuffer cell becomes: nothing for a blank (a space
/// on black) or undrawn cell; otherwise its character (a space when the
/// color lies above it) in the color pair of its palette entry.
pub open spec fn cell_value(cell: FramebufferCell, lut: Seq<usize>) -> Option<u32> {
    if cell.color == (ColorKey { r: 0, g: 0, b: 0 }) && cell.c == ' ' {
        None
    } else if cell.color_z == -1 && cell.char_z == -1 {
        None
    } else {
        let c = if cell.char_z < cell.color_z { ' ' } else { cell.c };
        Some(curses_cell(c, lut[cell.palette_index as int] as u32))
    }
}

/// A drawn framebuffer cell shows its own character whenever its text lies
/// at or above its color, and a space only when the text lies below the
/// color; either way in the color pair of its palette entry. A blank cell
/// (a space on black) and a cell drawn in neither layer show nothing.
pub proof fn lemma_cell_by_depth(cell: FramebufferCell, lut: Seq<usize>)
    ensures
        cell.color == (ColorKey { r: 0, g: 0, b: 0 }) && cell.c == ' ' ==> cell_value(cell, lut) is None,
        cell.color_z == -1 && cell.char_z == -1 ==> cell_value(cell, lut) is None,
        !(cell.color == (ColorKey { r: 0, g: 0, b: 0 }) && cell.c == ' ') && !(cell.color_z == -1 && cell.char_z == -1)
            ==> {
            &&& cell.char_z >= cell.color_z ==> cell_value(cell, lut) == Some(
                curses_cell(cell.c, lut[cell.palette_index as int] as u32),
            )
            &&& cell.char_z < cell.color_z ==> cell_value(cell, lut) == Some(
                curses_cell(' ', lut[cell.palette_index as int] as u32),
            )
        },
{
}

/// Whether a framebuffer cell is drawn, so that its palette entry is looked
/// up.
pub open spec fn cell_drawn(cell: FramebufferCell) -> bool {
    !(cell.color == (ColorKey { r: 0, g: 0, b: 0 }) && cell.c == ' ') && !(cell.color_z == -1
        && cell.char_z == -1)
}

/// The curses cells to draw among the first `n` framebuffer cells (in
/// row-major order) of a window `width` wide, with their positions.
pub open spec fn rendered_cells(cells: Seq<FramebufferCell>, lut: Seq<usize>, width: int, n: int) -> Seq<
    (Vector2I, u32),
>
    decreases n,
{
    if n <= 0 {
        Seq::empty()
    } else {
        let rest = rendered_cells(cells, lut, width, n - 1);
        let i = n - 1;
        match cell_value(cells[i], lut) {
            Some(value) => rest.push((Vector2I((i % width) as i64, (i / width) as i64), value)),
            None => rest,
        }
    }
}

/// One more drawn cell adds one curses cell after the earlier ones.
proof fn lemma_rendered_step(cells: Seq<FramebufferCell>, lut: Seq<usize>, width: int, n: int, value: u32)
    requires
        n > 0,
        cell_value(cells[n - 1], lut) == Some(value),
    ensures
        rendered_cells(cells, lut, width, n).len() == rendered_cells(cells, lut, width, n - 1).len() + 1,
        forall|k: int|
            0 <= k < rendered_cells(cells, lut, width, n - 1).len() ==> rendered_cells(cells, lut, width, n)[k]
                == rendered_cells(cells, lut, width, n - 1)[k],
        rendered_cells(cells, lut, width, n)[rendered_cells(cells, lut, width, n - 1).len() as int] == (
            Vector2I(((n - 1) % width) as i64, ((n - 1) / width) as i64),
            value,
        ),
{
    let last = (Vector2I(((n - 1) % width) as i64, ((n - 1) / width) as i64), value);
    let rest = rendered_cells(cells, lut, width, n - 1);
    assert(rendered_cells(cells, lut, width, n) == rest.push(last));
    assert forall|k: int| 0 <= k < rest.len() implies rest.push(last)[k] == rest[k] by {}
    assert(rest.push(last)[rest.len() as int] == last);
}

/// When each of the first `n` framebuffer cells is drawn, there is one
/// curses cell per framebuffer cell, in row-major order: framebuffer cell
/// `i` at column `i % width` and row `i / width`, with its value.
pub proof fn lemma_rendered_full_frame(cells: Seq<FramebufferCell>, lut: Seq<usize>, width: int, n: int)
    requires
        width > 0,
        0 <= n <= cells.len(),
        forall|i: int| 0 <= i < n ==> #[trigger] cell_value(cells[i], lut) is Some,
    ensures
        rendered_cells(cells, lut, width, n).len() == n,
        forall|i: int|
            0 <= i < n ==> #[trigger] rendered_cells(cells, lut, width, n)[i] == (
                Vector2I((i % width) as i64, (i / width) as i64),
                cell_value(cells[i], lut)->0,
            ),
    decreases n,
{
    if n > 0 {
        lemma_rendered_full_frame(cells, lut, width, n - 1);
        assert(cell_value(cells[n - 1], lut) is Some);
        lemma_rendered_step(cells, lut, width, n, cell_value(cells[n - 1], lut)->0);
        assert forall|i: int| 0 <= i < n implies #[trigger] rendered_cells(cells, lut, width, n)[i] == (
            Vector2I((i % width) as i64, (i / width) as i64),
            cell_value(cells[i], lut)->0,
        ) by {
            if i < n - 1 {
                assert(rendered_cells(cells, lut, width, n)[i] == rendered_cells(cells, lut, width, n - 1)[i]);
            }
        }
    }
}

/// Draws the software framebuffers on the curses window.
#[derive(Debug, Default, Copy, Clone)]
pub struct CursesRenderer;

impl CursesRenderer {
    /// Composites the framebuffer cells of a `width` by `height` window into
    /// the curses cells to draw, in row-major order. Panics (so is not
    /// callable) without a palette, with fewer cells than the window has, or
    /// with a drawn cell whose palette entry is out of range.
    pub fn composite(&self, palette: &CursesPalette, cells: &Vec<FramebufferCell>, width: i32, height: i32) -> (drawn: Vec<(Vector2I, u32)>)
        requires
            palette.wf(),
            palette.has_palette(),
            width > 0 && height > 0 ==> width * height <= cells@.len(),
            forall|i: int| 0 <= i < cells@.len() && #[trigger] cell_drawn(cells@[i]) ==> cells@[i].palette_index < 256,
        ensures
            drawn@ == rendered_cells(
                cells@,
                palette.lut(),
                width as int,
                if width > 0 && height > 0 { width * height } else { 0 },
            ),
    {
        let mut drawn: Vec<(Vector2I, u32)> = Vec::new();
        if width <= 0 || height <= 0 {
            return drawn;
        }
        let ghost w = width as int;
        let n = cells.len();
        let mut y: i32 = 0;
        let mut idx: usize = 0;
        while y < height
            invariant
                0 <= y <= height,
                idx == y * w,
                n == cells@.len(),
                w == width,
                width > 0,
                palette.wf(),
                palette.has_palette(),
                width * height <= cells@.len(),
                forall|i: int| 0 <= i < cells@.len() && #[trigger] cell_drawn(cells@[i]) ==> cells@[i].palette_index < 256,
                drawn@ == rendered_cells(cells@, palette.lut(), w, y * w),
            decreases height - y,
        {
            let mut x: i32 = 0;
            while x < width
                invariant
                    0 <= x <= width,
                    0 <= y < height,
                    idx == y * w + x,
                    n == cells@.len(),
                    w == width,
                    width > 0,
                    palette.wf(),
                    palette.has_palette(),
                    width * height <= cells@.len(),
                    forall|i: int| 0 <= i < cells@.len() && #[trigger] cell_drawn(cells@[i]) ==> cells@[i].palette_index < 256,
                    drawn@ == rendered_cells(cells@, palette.lut(), w, y * w + x),
                decreases width - x,
            {
                proof {
                    assert(y * w + x < width * height) by (nonlinear_arith)
                        requires 0 <= x < w, 0 <= y < height, w == width;
                    assert(0 <= y * w) by (nonlinear_arith)
                        requires 0 <= y, 0 < w;
                    lemma_cell_coordinates(x as int, y as int, w);
                }
                let cell = cells[idx];
                let ghost i = y * w + x;
                assert(cells@[i] == cell);
                if !(cell.color == ColorKey::black() && cell.c == ' ') && !(cell.color_z == -1 && cell.char_z == -1) {
                    assert(cell_drawn(cells@[i]));
                    let color_idx = palette.get_color_idx(cell.palette_index);
                    let c = if cell.char_z < cell.color_z { ' ' } else { cell.c };
                    let value = cell_with_pair(c, color_idx as u32);
                    drawn.push((Vector2I(x as i64, y as i64), value));
                }
                idx = idx + 1;
                x = x + 1;
            }
            assert(y * w + w == (y + 1) * w) by (nonlinear_arith);
            y = y + 1;
        }
        assert(y * w == width * height) by (nonlinear_arith)
            requires y == height, w == width;
        drawn
    }
}

} // verus!
