//! Software rendering of controls into a color layer and a character layer
//! with per-cell depth, and compositing the layers into terminal cells.

use vstd::prelude::*;

use vstd::arithmetic::div_mod::{lemma_fundamental_div_mod, lemma_fundamental_div_mod_converse, lemma_mod_bound};

use vstd::std_specs::iter::IteratorSpec;
use vstd::string::StringSliceAdditionalSpecFns;
use vstd::utf8::{decode_utf8, is_char_boundary};

use crate::cpu_shader::{lemma_shader_input_views, CPUShaderInput};
use crate::components::pancurses_color_set_component::PancursesColorSetComponent;
use crate::curses_cell::{cell_with_pair, curses_cell};
use crate::pancurses_color::PancursesColorPair;
use crate::primitive_types::{ColorKey, CursesCommand, Vector2I};
use crate::systems::list_system::{byte_lines, lemma_boundary_after_newline, lemma_first_newline};

verus! {

/// A cell of the color layer: its color and, once drawn, its depth.
pub type ColorCell = (ColorKey, Option<i64>);

/// A cell of the character layer: its character, the character's color and,
/// once drawn, its depth.
pub type CharCell = (char, ColorKey, Option<i64>);

/// A cleared color cell: black and undrawn.
pub open spec fn cleared_color_cell() -> ColorCell {
    (ColorKey { r: 0, g: 0, b: 0 }, None)
}

/// A cleared character cell: a white space and undrawn.
pub open spec fn cleared_char_cell() -> CharCell {
    (' ', ColorKey { r: ColorKey::one_bits(), g: ColorKey::one_bits(), b: ColorKey::one_bits() }, None)
}

/// Drawing `color` at depth `z` over a color cell: a cell already drawn
/// deeper than `z` (a larger depth) stays, as does a cell of the same color;
/// otherwise the cell takes the color and the depth.
pub open spec fn color_drawn(cell: ColorCell, color: ColorKey, z: i64) -> ColorCell {
    if (cell.1 is Some && cell.1->0 > z) || cell.0 == color {
        cell
    } else {
        (color, Some(z))
    }
}

/// Drawing `c` in `color` at depth `z` over a character cell, by the same
/// rule as for colors: the cell stays when drawn at a larger depth or when it
/// already holds the same character in the same color.
pub open spec fn char_drawn(cell: CharCell, c: char, color: ColorKey, z: i64) -> CharCell {
    if (cell.2 is Some && cell.2->0 > z) || (cell.0 == c && cell.1 == color) {
        cell
    } else {
        (c, color, Some(z))
    }
}

/// The buffer position of cell `(x, y)` in a window `window_width` wide.
pub open spec fn cell_index(x: int, y: int, window_width: int) -> int {
    y * window_width + x
}

/// The character a rectangle is filled with: control characters become
/// spaces.
pub open spec fn rect_char(c: char) -> char {
    if c == '\0' || c == '\n' || c == '\t' {
        ' '
    } else {
        c
    }
}

/// The larger of two integers.
pub open spec fn max_int(a: int, b: int) -> int {
    if a >= b { a } else { b }
}

/// The smaller of two integers.
pub open spec fn min_int(a: int, b: int) -> int {
    if a <= b { a } else { b }
}

/// Cell `i` of a window `window_width` wide lies in the clipped rectangle
/// spanning columns `lo_x..hi_x` and rows `lo_y..hi_y`.
pub open spec fn rect_covers(i: int, window_width: int, lo_x: int, hi_x: int, lo_y: int, hi_y: int) -> bool {
    &&& lo_y <= i / window_width < hi_y
    &&& lo_x <= i % window_width < hi_x
}

/// Cell `i` comes before cell `(x, y)` in row-major order.
pub open spec fn visited_before(i: int, window_width: int, x: int, y: int) -> bool {
    i / window_width < y || (i / window_width == y && i % window_width < x)
}

/// What a shader sees of cell `i` of a rectangle at `position`.
pub open spec fn shader_input_at(i: int, window_width: int, position: Vector2I, size: Vector2I, color: ColorKey) -> CPUShaderInput {
    CPUShaderInput::spec_new(
        Vector2I((i % window_width - position.0) as i64, (i / window_width - position.1) as i64),
        size,
        color,
    )
}

/// A color cell after a shader produced `shaded` for it.
pub open spec fn color_shaded(cell: ColorCell, shaded: Option<ColorKey>, z: i64) -> ColorCell {
    match shaded {
        Some(color) => color_drawn(cell, color, z),
        None => cell,
    }
}

/// A character cell after a rectangle filled with `c` covered it.
pub open spec fn char_filled(cell: CharCell, c: char, z: i64) -> CharCell {
    if c != ' ' {
        char_drawn(
            cell,
            c,
            ColorKey { r: ColorKey::one_bits(), g: ColorKey::one_bits(), b: ColorKey::one_bits() },
            z,
        )
    } else {
        cell
    }
}

/// Row and column of the cell at `y * window_width + x`.
pub(crate) proof fn lemma_cell_coordinates(x: int, y: int, window_width: int)
    requires
        0 <= x < window_width,
    ensures
        (y * window_width + x) / window_width == y,
        (y * window_width + x) % window_width == x,
{
    lemma_fundamental_div_mod_converse(y * window_width + x, window_width, y, x);
}

/// A cell is determined by its row and column.
proof fn lemma_cell_from_coordinates(i: int, window_width: int)
    requires
        window_width > 0,
    ensures
        i == (i / window_width) * window_width + i % window_width,
        0 <= i % window_width < window_width,
{
    lemma_fundamental_div_mod(i, window_width);
    lemma_mod_bound(i, window_width);
    assert(window_width * (i / window_width) == (i / window_width) * window_width) by (nonlinear_arith);
}

/// Depth order of drawn cells: an undrawn cell lies below every drawn one.
pub open spec fn depth_below(a: Option<i64>, b: Option<i64>) -> bool {
    match (a, b) {
        (None, Some(_)) => true,
        (Some(x), Some(y)) => x < y,
        _ => false,
    }
}

/// A terminal cell produced by compositing: position, character, and the
/// foreground and background colors of its color pair.
#[derive(Debug, Copy, Clone, PartialEq, Eq, Structural)]
pub struct RenderedCell {
    pub x: i32,
    pub y: i32,
    pub c: char,
    pub foreground: ColorKey,
    pub background: ColorKey,
}

/// How one cell is composited from its color and character layers: nothing
/// when neither layer was drawn; a space on the color when the color lies
/// above the character; the character on the color when both lie at the
/// same depth; the character on black when it lies above the color.
pub open spec fn composite_cell(color_cell: ColorCell, char_cell: CharCell) -> Option<(char, ColorKey, ColorKey)> {
    if color_cell.1 is None && char_cell.2 is None {
        None
    } else if depth_below(char_cell.2, color_cell.1) {
        Some((' ', ColorKey { r: ColorKey::one_bits(), g: ColorKey::one_bits(), b: ColorKey::one_bits() }, color_cell.0))
    } else if char_cell.2 == color_cell.1 {
        Some((char_cell.0, char_cell.1, color_cell.0))
    } else {
        Some((char_cell.0, char_cell.1, ColorKey { r: 0, g: 0, b: 0 }))
    }
}

/// How a cell's two layers combine, by their depths (an undrawn layer lies
/// below every drawn one): with neither drawn the cell shows nothing; a
/// color above the character shows as a space in white on that color; a
/// character at the same depth as the color shows in its own color on that
/// color; a character above the color shows in its own color on black.
pub proof fn lemma_composite_by_depth(color: ColorKey, color_z: Option<i64>, c: char, char_color: ColorKey, char_z: Option<i64>)
    ensures
        color_z is None && char_z is None ==> composite_cell((color, color_z), (c, char_color, char_z)) is None,
        color_z is Some && char_z == color_z ==> composite_cell((color, color_z), (c, char_color, char_z)) == Some(
            (c, char_color, color),
        ),
        (char_z is None && color_z is Some) || (char_z is Some && color_z is Some && char_z->0 < color_z->0)
            ==> composite_cell((color, color_z), (c, char_color, char_z)) == Some(
            (' ', ColorKey { r: 0x3F80_0000, g: 0x3F80_0000, b: 0x3F80_0000 }, color),
        ),
        (char_z is Some && color_z is None) || (char_z is Some && color_z is Some && char_z->0 > color_z->0)
            ==> composite_cell((color, color_z), (c, char_color, char_z)) == Some(
            (c, char_color, ColorKey { r: 0, g: 0, b: 0 }),
        ),
{
}

/// The shader of a rectangle sees each covered cell relative to the
/// rectangle's top-left corner: cell `(x, y)` of the window is at `(x -
/// position.0, y - position.1)` inside the rectangle, together with the
/// rectangle's size and color. So moving a rectangle moves what it draws.
pub proof fn lemma_shader_sees_local_position(
    window_width: int,
    x: int,
    y: int,
    position: Vector2I,
    size: Vector2I,
    color: ColorKey,
)
    requires
        0 <= x < window_width,
        0 <= y,
        i64::MIN <= x - position.0 <= i64::MAX,
        i64::MIN <= y - position.1 <= i64::MAX,
    ensures
        shader_input_at(y * window_width + x, window_width, position, size, color).local_pos_view() == Vector2I(
            (x - position.0) as i64,
            (y - position.1) as i64,
        ),
        shader_input_at(y * window_width + x, window_width, position, size, color).size_view() == size,
        shader_input_at(y * window_width + x, window_width, position, size, color).color_view() == color,
{
    lemma_cell_coordinates(x, y, window_width);
    lemma_shader_input_views(
        Vector2I((x - position.0) as i64, (y - position.1) as i64),
        size,
        color,
    );
}

/// The composited cells among the first `n` cells (in row-major order) of a
/// window `window_width` wide.
pub open spec fn composited(colors: Seq<ColorCell>, chars: Seq<CharCell>, window_width: int, n: int) -> Seq<RenderedCell>
    decreases n,
{
    if n <= 0 {
        Seq::empty()
    } else {
        let rest = composited(colors, chars, window_width, n - 1);
        let i = n - 1;
        match composite_cell(colors[i], chars[i]) {
            Some((c, foreground, background)) => rest.push(RenderedCell {
                x: (i % window_width) as i32,
                y: (i / window_width) as i32,
                c,
                foreground,
                background,
            }),
            None => rest,
        }
    }
}

/// Columns between tab stops when rendering text.
pub open spec fn tab_width() -> int {
    4
}

/// Where each character of a line of text is drawn, relative to the text's
/// start, when the text continues at column `x` of row `y`: `\0` draws
/// nothing, `\n` starts the next row, `\t` advances to the next tab stop,
/// every other character is drawn and advances one column.
pub open spec fn text_layout(chars: Seq<char>, x: int, y: int) -> Seq<(int, int, char)>
    decreases chars.len(),
{
    if chars.len() == 0 {
        Seq::empty()
    } else {
        let c = chars[0];
        let rest = chars.drop_first();
        if c == '\0' {
            text_layout(rest, x, y)
        } else if c == '\n' {
            text_layout(rest, 0, y + 1)
        } else if c == '\t' {
            text_layout(rest, x + tab_width() - x % tab_width(), y)
        } else {
            seq![(x, y, c)] + text_layout(rest, x + 1, y)
        }
    }
}

/// The character layer after drawing the laid-out characters in order,
/// each at column `x0 + x` of its row.
pub open spec fn text_drawn(cells: Seq<CharCell>, layout: Seq<(int, int, char)>, x0: int, window_width: int, color: ColorKey, z: i64) -> Seq<CharCell>
    decreases layout.len(),
{
    if layout.len() == 0 {
        cells
    } else {
        let (x, y, c) = layout[0];
        let i = cell_index(x0 + x, y, window_width);
        text_drawn(cells.update(i, char_drawn(cells[i], c, color, z)), layout.drop_first(), x0, window_width, color, z)
    }
}

/// Every laid-out character falls on a cell of the layer, with the position
/// arithmetic in range.
pub open spec fn text_fits(len: int, layout: Seq<(int, int, char)>, x0: int, window_width: int) -> bool {
    forall|k: int| 0 <= k < layout.len() ==> {
        let (x, y, c) = #[trigger] layout[k];
        &&& i64::MIN <= y * window_width <= i64::MAX
        &&& 0 <= cell_index(x0 + x, y, window_width) < len
        &&& cell_index(x0 + x, y, window_width) <= i64::MAX
        &&& i64::MIN <= x0 + x <= i64::MAX
    }
}

/// Dropping the first laid-out character keeps the rest fitting.
proof fn lemma_text_fits_rest(len: int, first: (int, int, char), rest: Seq<(int, int, char)>, x0: int, window_width: int)
    requires
        text_fits(len, seq![first] + rest, x0, window_width),
    ensures
        text_fits(len, rest, x0, window_width),
        ({
            let (x, y, c) = first;
            &&& i64::MIN <= y * window_width <= i64::MAX
            &&& 0 <= cell_index(x0 + x, y, window_width) < len
            &&& cell_index(x0 + x, y, window_width) <= i64::MAX
            &&& i64::MIN <= x0 + x <= i64::MAX
        }),
{
    let all = seq![first] + rest;
    assert(all[0] == first);
    assert forall|k: int| 0 <= k < rest.len() implies {
        let (x, y, c) = #[trigger] rest[k];
        &&& i64::MIN <= y * window_width <= i64::MAX
        &&& 0 <= cell_index(x0 + x, y, window_width) < len
        &&& cell_index(x0 + x, y, window_width) <= i64::MAX
        &&& i64::MIN <= x0 + x <= i64::MAX
    } by {
        assert(all[k + 1] == rest[k]);
    }
}

/// A text takes at least as many bytes as it has characters.
proof fn lemma_encoding_not_shorter(chars: Seq<char>)
    ensures
        chars.len() <= vstd::utf8::encode_utf8(chars).len(),
    decreases chars.len(),
{
    if chars.len() > 0 {
        lemma_encoding_not_shorter(chars.drop_first());
    }
}

/// The byte range of a text that stays visible when the text starts at
/// column `x` of a window `window_width` wide, and the column where the
/// visible part starts: a text starting left of the window loses the bytes
/// left of column 0; a text reaching past the right edge is cut there.
pub open spec fn visible_bytes(len: int, x: int, window_width: int) -> (int, int, int) {
    let (start, new_x) = if x < -len {
        (len, x)
    } else if x < 0 {
        (-x, 0)
    } else {
        (0, x)
    };
    let rest = len - start;
    let end = if new_x > window_width {
        start
    } else if new_x > window_width - rest {
        start + (window_width - new_x)
    } else {
        len
    };
    (start, end, new_x)
}

/// A cleared frame shows nothing: compositing cleared layers gives no cells.
pub proof fn lemma_cleared_frame_is_empty(color_len: nat, char_len: nat, window_width: int, n: int)
    requires
        n <= color_len,
        n <= char_len,
    ensures
        composited(
            Seq::new(color_len, |i: int| cleared_color_cell()),
            Seq::new(char_len, |i: int| cleared_char_cell()),
            window_width,
            n,
        ) == Seq::<RenderedCell>::empty(),
    decreases n,
{
    if n > 0 {
        lemma_cleared_frame_is_empty(color_len, char_len, window_width, n - 1);
    }
}

/// When each of the first `n` cells shows something, compositing gives one
/// terminal cell per buffer cell, in row-major order: buffer cell `i` at
/// column `i % w` and row `i / w`, showing what its two layers combine to.
pub proof fn lemma_composited_full_frame(colors: Seq<ColorCell>, chars: Seq<CharCell>, window_width: int, n: int)
    requires
        0 < window_width <= i32::MAX,
        0 <= n <= i32::MAX,
        n <= colors.len(),
        n <= chars.len(),
        forall|i: int| 0 <= i < n ==> #[trigger] composite_cell(colors[i], chars[i]) is Some,
    ensures
        composited(colors, chars, window_width, n).len() == n,
        forall|i: int|
            0 <= i < n ==> {
                let cell = #[trigger] composited(colors, chars, window_width, n)[i];
                &&& cell.x as int == i % window_width
                &&& cell.y as int == i / window_width
                &&& composite_cell(colors[i], chars[i]) == Some((cell.c, cell.foreground, cell.background))
            },
    decreases n,
{
    if n > 0 {
        lemma_composited_full_frame(colors, chars, window_width, n - 1);
        lemma_composited_shown_step(colors, chars, window_width, n);
        assert forall|k: int| 0 <= k < n implies {
            let cell = #[trigger] composited(colors, chars, window_width, n)[k];
            &&& cell.x as int == k % window_width
            &&& cell.y as int == k / window_width
            &&& composite_cell(colors[k], chars[k]) == Some((cell.c, cell.foreground, cell.background))
        } by {
            if k < n - 1 {
                assert(composited(colors, chars, window_width, n)[k] == composited(colors, chars, window_width, n - 1)[k]);
            }
        }
    }
}

/// A shown cell adds one terminal cell after the earlier ones, at its
/// column and row, showing what its layers combine to.
proof fn lemma_composited_shown_step(colors: Seq<ColorCell>, chars: Seq<CharCell>, window_width: int, n: int)
    requires
        0 < window_width <= i32::MAX,
        0 < n <= i32::MAX,
        composite_cell(colors[n - 1], chars[n - 1]) is Some,
    ensures
        composited(colors, chars, window_width, n).len() == composited(colors, chars, window_width, n - 1).len() + 1,
        forall|k: int|
            0 <= k < composited(colors, chars, window_width, n - 1).len() ==> composited(colors, chars, window_width, n)[k]
                == composited(colors, chars, window_width, n - 1)[k],
        ({
            let cell = composited(colors, chars, window_width, n)[composited(colors, chars, window_width, n - 1).len() as int];
            &&& cell.x as int == (n - 1) % window_width
            &&& cell.y as int == (n - 1) / window_width
            &&& composite_cell(colors[n - 1], chars[n - 1]) == Some((cell.c, cell.foreground, cell.background))
        }),
{
    let i = n - 1;
    lemma_mod_bound(i, window_width);
    assert(0 <= i / window_width <= i) by (nonlinear_arith)
        requires
            i >= 0,
            window_width > 0,
    ;
    let cc = colors[i];
    let ch = chars[i];
    if depth_below(ch.2, cc.1) {
        let white = ColorKey { r: ColorKey::one_bits(), g: ColorKey::one_bits(), b: ColorKey::one_bits() };
        assert(composite_cell(cc, ch) == Some((' ', white, cc.0)));
        lemma_composited_step(colors, chars, window_width, n, ' ', white, cc.0);
    } else if ch.2 == cc.1 {
        assert(composite_cell(cc, ch) == Some((ch.0, ch.1, cc.0)));
        lemma_composited_step(colors, chars, window_width, n, ch.0, ch.1, cc.0);
    } else {
        assert(composite_cell(cc, ch) == Some((ch.0, ch.1, ColorKey { r: 0, g: 0, b: 0 })));
        lemma_composited_step(colors, chars, window_width, n, ch.0, ch.1, ColorKey { r: 0, g: 0, b: 0 });
    }
}

/// One more shown cell adds one terminal cell at the end.
proof fn lemma_composited_step(
    colors: Seq<ColorCell>,
    chars: Seq<CharCell>,
    window_width: int,
    n: int,
    c: char,
    foreground: ColorKey,
    background: ColorKey,
)
    requires
        n > 0,
        composite_cell(colors[n - 1], chars[n - 1]) == Some((c, foreground, background)),
    ensures
        composited(colors, chars, window_width, n) == composited(colors, chars, window_width, n - 1).push(
            RenderedCell {
                x: ((n - 1) % window_width) as i32,
                y: ((n - 1) / window_width) as i32,
                c,
                foreground,
                background,
            },
        ),
        composited(colors, chars, window_width, n).len() == composited(colors, chars, window_width, n - 1).len() + 1,
        forall|k: int|
            0 <= k < composited(colors, chars, window_width, n - 1).len() ==> composited(colors, chars, window_width, n)[k]
                == composited(colors, chars, window_width, n - 1)[k],
        composited(colors, chars, window_width, n)[composited(colors, chars, window_width, n - 1).len() as int]
            == (RenderedCell { x: ((n - 1) % window_width) as i32, y: ((n - 1) / window_width) as i32, c, foreground, background }),
{
    let last = RenderedCell { x: ((n - 1) % window_width) as i32, y: ((n - 1) / window_width) as i32, c, foreground, background };
    let rest = composited(colors, chars, window_width, n - 1);
    assert forall|k: int| 0 <= k < rest.len() implies rest.push(last)[k] == rest[k] by {}
    assert(rest.push(last)[rest.len() as int] == last);
}

/// Cell `(x, y)` of the window, with `x` inside a row, is covered by a
/// rectangle exactly when `x` lies in its columns and `y` in its rows.
pub proof fn lemma_rect_covers_cell(x: int, y: int, window_width: int, lo_x: int, hi_x: int, lo_y: int, hi_y: int)
    requires
        0 <= x < window_width,
    ensures
        rect_covers(y * window_width + x, window_width, lo_x, hi_x, lo_y, hi_y) <==> (lo_x <= x < hi_x && lo_y <= y
            < hi_y),
{
    lemma_cell_coordinates(x, y, window_width);
}

/// Drawing a color at depth `z` over a cell: a cell drawn above `z` keeps
/// what it had; otherwise the cell shows the drawn color afterwards, at
/// depth `z` unless it already showed that color.
pub proof fn lemma_color_draw_by_depth(cell: ColorCell, color: ColorKey, z: i64)
    ensures
        cell.1 matches Some(d) && d > z ==> color_drawn(cell, color, z) == cell,
        !(cell.1 matches Some(d) && d > z) ==> color_drawn(cell, color, z).0 == color,
        !(cell.1 matches Some(d) && d > z) && cell.0 != color ==> color_drawn(cell, color, z).1 == Some(z),
{
}

/// Drawing a character at depth `z` over a cell, by the same rule.
pub proof fn lemma_char_draw_by_depth(cell: CharCell, c: char, color: ColorKey, z: i64)
    ensures
        cell.2 matches Some(d) && d > z ==> char_drawn(cell, c, color, z) == cell,
        !(cell.2 matches Some(d) && d > z) ==> char_drawn(cell, c, color, z).0 == c && char_drawn(cell, c, color, z).1
            == color,
        !(cell.2 matches Some(d) && d > z) && !(cell.0 == c && cell.1 == color) ==> char_drawn(cell, c, color, z).2
            == Some(z),
{
}

/// Drawing the same color, or the same character, twice at the same depth
/// is the same as drawing it once.
pub proof fn lemma_redraw_changes_nothing(color_cell: ColorCell, char_cell: CharCell, c: char, color: ColorKey, z: i64)
    ensures
        color_drawn(color_drawn(color_cell, color, z), color, z) == color_drawn(color_cell, color, z),
        char_drawn(char_drawn(char_cell, c, color, z), c, color, z) == char_drawn(char_cell, c, color, z),
{
}

/// Whether a text (given by its bytes) can be drawn at `position` of a
/// window `window_size` large into a character layer of `cell_count` cells:
/// its length keeps the column arithmetic in range, the cuts at the window
/// edges fall between characters, and every drawn character lands on a
/// cell with the position arithmetic in range.
pub open spec fn string_renderable(cell_count: int, bytes: Seq<u8>, window_size: Vector2I, position: Vector2I) -> bool {
    let len = bytes.len() as int;
    let (start, end, new_x) = visible_bytes(len, position.0 as int, window_size.0 as int);
    let visible = decode_utf8(bytes.subrange(start, end));
    &&& 4 * len <= i32::MAX
    &&& -len <= position.0 < 0 ==> is_char_boundary(bytes, -position.0)
    &&& is_char_boundary(bytes.subrange(start, len), end - start)
    &&& end > start && 0 <= position.1 < window_size.1 ==> position.1 + len <= i64::MAX
    &&& end > start && 0 <= position.1 < window_size.1
        ==> text_fits(cell_count, text_layout(visible, 0, position.1 as int), new_x, window_size.0 as int)
}

/// The character layer after drawing a text (given by its bytes) at
/// `position`: the part left of column 0 and right of the window is cut off
/// (by bytes), and nothing is drawn when nothing remains or the row lies
/// outside the window.
pub open spec fn string_rendered(
    cells: Seq<CharCell>,
    bytes: Seq<u8>,
    window_size: Vector2I,
    position: Vector2I,
    color: ColorKey,
    z: i64,
) -> Seq<CharCell> {
    let len = bytes.len() as int;
    let (start, end, new_x) = visible_bytes(len, position.0 as int, window_size.0 as int);
    let visible = decode_utf8(bytes.subrange(start, end));
    if end > start && 0 <= position.1 < window_size.1 {
        text_drawn(cells, text_layout(visible, 0, position.1 as int), new_x, window_size.0 as int, color, z)
    } else {
        cells
    }
}

/// Drawing laid-out characters that all land on cells keeps the layer's
/// length.
proof fn lemma_text_drawn_len(cells: Seq<CharCell>, layout: Seq<(int, int, char)>, x0: int, window_width: int, color: ColorKey, z: i64)
    requires
        text_fits(cells.len() as int, layout, x0, window_width),
    ensures
        text_drawn(cells, layout, x0, window_width, color, z).len() == cells.len(),
    decreases layout.len(),
{
    if layout.len() > 0 {
        let (x, y, c) = layout[0];
        let i = cell_index(x0 + x, y, window_width);
        assert(layout =~= seq![layout[0]] + layout.drop_first());
        lemma_text_fits_rest(cells.len() as int, layout[0], layout.drop_first(), x0, window_width);
        lemma_text_drawn_len(cells.update(i, char_drawn(cells[i], c, color, z)), layout.drop_first(), x0, window_width, color, z);
    }
}

/// The character layer after drawing lines one under the other, the first
/// at `position`.
pub open spec fn lines_rendered(
    cells: Seq<CharCell>,
    lines: Seq<Seq<u8>>,
    window_size: Vector2I,
    position: Vector2I,
    color: ColorKey,
    z: i64,
) -> Seq<CharCell>
    decreases lines.len(),
{
    if lines.len() == 0 {
        cells
    } else {
        lines_rendered(
            string_rendered(cells, lines[0], window_size, position, color, z),
            lines.drop_first(),
            window_size,
            Vector2I(position.0, (position.1 + 1) as i64),
            color,
            z,
        )
    }
}

/// Whether lines drawn one under the other from `position` keep their rows
/// in range and can each be drawn.
pub open spec fn lines_renderable(cell_count: int, lines: Seq<Seq<u8>>, window_size: Vector2I, position: Vector2I) -> bool {
    &&& position.1 + lines.len() - 1 <= i64::MAX
    &&& forall|k: int|
        0 <= k < lines.len() ==> string_renderable(
            cell_count,
            #[trigger] lines[k],
            window_size,
            Vector2I(position.0, (position.1 + k) as i64),
        )
}

/// Whether a rectangle can be filled: its far corner is computed without
/// overflow, and the last cell it covers inside the window lies in both
/// layers.
pub open spec fn rect_renderable(color_len: int, char_len: int, window_size: Vector2I, position: Vector2I, size: Vector2I) -> bool {
    &&& size.0 != 0 && size.1 != 0 ==> {
        &&& i64::MIN <= position.0 + size.0 <= i64::MAX
        &&& i64::MIN <= position.1 + size.1 <= i64::MAX
    }
    &&& ({
        let lo_x = max_int(position.0 as int, 0);
        let hi_x = min_int(position.0 + size.0, window_size.0 as int);
        let lo_y = max_int(position.1 as int, 0);
        let hi_y = min_int(position.1 + size.1, window_size.1 as int);
        lo_x < hi_x && lo_y < hi_y ==> {
            &&& hi_y * window_size.0 <= i64::MAX
            &&& (hi_y - 1) * window_size.0 + hi_x - 1 < color_len
            &&& (hi_y - 1) * window_size.0 + hi_x - 1 < char_len
        }
    })
}

/// What the renderer draws for one control.
#[derive(Debug, Clone)]
pub enum ControlDrawing {
    /// A rectangle filled through the control's shader.
    Rect { position: Vector2I, size: Vector2I, color: ColorKey, c: char },
    /// A text, line by line.
    Text { position: Vector2I, text: String, color: ColorKey },
    /// A single character, drawn as a one-character text.
    Char { position: Vector2I, c: char, color: ColorKey },
}

/// Why a control cannot be drawn.
#[derive(Debug, Copy, Clone, PartialEq, Eq, Structural)]
pub enum RenderError {
    /// The control has neither a global nor a local position.
    MissingPosition,
}

/// Decides what to draw for a control from its components: at its global
/// position (its local one when it has none), in its color (white when it
/// has none); a rectangle of its size filled with its character (a space
/// when it has none) when it has a size; otherwise its text, or else its
/// character; otherwise nothing. A control without any position is an
/// error.
pub fn control_drawing(
    global_position: Option<Vector2I>,
    position: Option<Vector2I>,
    color: Option<ColorKey>,
    c: Option<char>,
    size: Option<Vector2I>,
    text: Option<String>,
) -> (drawing: Result<Option<ControlDrawing>, RenderError>)
    ensures
        global_position is None && position is None ==> drawing == Err::<Option<ControlDrawing>, RenderError>(
            RenderError::MissingPosition,
        ),
        global_position is Some || position is Some ==> {
            let at = match global_position {
                Some(p) => p,
                None => position->0,
            };
            let paint = match color {
                Some(k) => k,
                None => ColorKey { r: ColorKey::one_bits(), g: ColorKey::one_bits(), b: ColorKey::one_bits() },
            };
            match drawing {
                Ok(Some(ControlDrawing::Rect { position: p, size: s, color: k, c: ch })) => size == Some(s) && p == at
                    && k == paint && ch == match c {
                    Some(ch) => ch,
                    None => ' ',
                },
                Ok(Some(ControlDrawing::Text { position: p, text: t, color: k })) => size is None && text == Some(t)
                    && p == at && k == paint,
                Ok(Some(ControlDrawing::Char { position: p, c: ch, color: k })) => size is None && text is None && c
                    == Some(ch) && p == at && k == paint,
                Ok(None) => size is None && text is None && c is None,
                Err(_) => false,
            }
        },
{
    let at = match global_position {
        Some(p) => p,
        None => match position {
            Some(p) => p,
            None => {
                return Err(RenderError::MissingPosition);
            },
        },
    };
    let paint = match color {
        Some(k) => k,
        None => ColorKey::white(),
    };
    match size {
        Some(s) => Ok(Some(ControlDrawing::Rect {
            position: at,
            size: s,
            color: paint,
            c: match c {
                Some(ch) => ch,
                None => ' ',
            },
        })),
        None => match text {
            Some(t) => Ok(Some(ControlDrawing::Text { position: at, text: t, color: paint })),
            None => match c {
                Some(ch) => Ok(Some(ControlDrawing::Char { position: at, c: ch, color: paint })),
                None => Ok(None),
            },
        },
    }
}

/// Renders controls into a color layer and a character layer, one cell per
/// terminal cell, row by row.
#[derive(Debug, Clone)]
pub struct PancursesRendererSystem {
    color_buffer: Vec<ColorCell>,
    char_buffer: Vec<CharCell>,
}

impl PancursesRendererSystem {
    /// The color layer.
    pub closed spec fn color_cells(&self) -> Seq<ColorCell> {
        self.color_buffer@
    }

    /// The character layer.
    pub closed spec fn char_cells(&self) -> Seq<CharCell> {
        self.char_buffer@
    }

    /// Empty layers.
    pub fn new() -> (renderer: Self)
        ensures
            renderer.color_cells() == Seq::<ColorCell>::empty(),
            renderer.char_cells() == Seq::<CharCell>::empty(),
    {
        PancursesRendererSystem { color_buffer: Vec::new(), char_buffer: Vec::new() }
    }

    /// Resets every cell of both layers to its cleared state.
    pub fn clear(&mut self)
        ensures
            final(self).color_cells() == Seq::new(
                old(self).color_cells().len(),
                |i: int| cleared_color_cell(),
            ),
            final(self).char_cells() == Seq::new(
                old(self).char_cells().len(),
                |i: int| cleared_char_cell(),
            ),
    {
        let mut i: usize = 0;
        let ghost n = self.color_buffer@.len();
        while i < self.color_buffer.len()
            invariant
                0 <= i <= self.color_buffer@.len(),
                self.color_buffer@.len() == n,
                forall|m: int| 0 <= m < i ==> #[trigger] self.color_buffer@[m] == cleared_color_cell(),
                self.char_buffer@ == old(self).char_buffer@,
            decreases self.color_buffer@.len() - i,
        {
            self.color_buffer.set(i, (ColorKey::black(), None));
            i = i + 1;
        }
        let mut i: usize = 0;
        let ghost n = self.char_buffer@.len();
        while i < self.char_buffer.len()
            invariant
                0 <= i <= self.char_buffer@.len(),
                self.char_buffer@.len() == n,
                forall|m: int| 0 <= m < i ==> #[trigger] self.char_buffer@[m] == cleared_char_cell(),
                self.color_buffer@.len() == old(self).color_buffer@.len(),
                forall|m: int| 0 <= m < self.color_buffer@.len() ==> #[trigger] self.color_buffer@[m] == cleared_color_cell(),
            decreases self.char_buffer@.len() - i,
        {
            self.char_buffer.set(i, (' ', ColorKey::white(), None));
            i = i + 1;
        }
        assert(self.color_buffer@ =~= Seq::new(old(self).color_buffer@.len(), |i: int| cleared_color_cell()));
        assert(self.char_buffer@ =~= Seq::new(old(self).char_buffer@.len(), |i: int| cleared_char_cell()));
    }

    /// Draws `color` at depth `z` into cell `(x, y)` of a window
    /// `window_width` wide. Panics (so is not callable) when the position
    /// arithmetic overflows or the cell lies outside the layer.
    pub fn draw_color(&mut self, x: i64, y: i64, window_width: i64, color: ColorKey, z: i64)
        requires
            i64::MIN <= y * window_width <= i64::MAX,
            0 <= cell_index(x as int, y as int, window_width as int) < old(self).color_cells().len(),
            cell_index(x as int, y as int, window_width as int) <= i64::MAX,
        ensures
            final(self).color_cells() == old(self).color_cells().update(
                cell_index(x as int, y as int, window_width as int),
                color_drawn(
                    old(self).color_cells()[cell_index(x as int, y as int, window_width as int)],
                    color,
                    z,
                ),
            ),
            final(self).char_cells() == old(self).char_cells(),
    {
        let row = y * window_width;
        assert(cell_index(x as int, y as int, window_width as int) == row + x);
        let idx = row + x;
        let len = self.color_buffer.len();
        assert(idx < len);
        let (existing_color, existing_z) = self.color_buffer[idx as usize];
        if let Some(existing_z) = existing_z {
            if existing_z > z {
                assert(self.color_buffer@ =~= old(self).color_buffer@.update(idx as int, old(self).color_buffer@[idx as int]));
                return ;
            }
        }
        if color == existing_color {
            assert(self.color_buffer@ =~= old(self).color_buffer@.update(idx as int, old(self).color_buffer@[idx as int]));
            return ;
        }
        self.color_buffer.set(idx as usize, (color, Some(z)));
    }

    /// Draws character `c` in `color` at depth `z` into cell `(x, y)` of a
    /// window `window_width` wide. Panics (so is not callable) when the
    /// position arithmetic overflows or the cell lies outside the layer.
    pub fn draw_char(&mut self, x: i64, y: i64, window_width: i64, c: char, color: ColorKey, z: i64)
        requires
            i64::MIN <= y * window_width <= i64::MAX,
            0 <= cell_index(x as int, y as int, window_width as int) < old(self).char_cells().len(),
            cell_index(x as int, y as int, window_width as int) <= i64::MAX,
        ensures
            final(self).char_cells() == old(self).char_cells().update(
                cell_index(x as int, y as int, window_width as int),
                char_drawn(
                    old(self).char_cells()[cell_index(x as int, y as int, window_width as int)],
                    c,
                    color,
                    z,
                ),
            ),
            final(self).color_cells() == old(self).color_cells(),
    {
        let row = y * window_width;
        assert(cell_index(x as int, y as int, window_width as int) == row + x);
        let idx = row + x;
        let len = self.char_buffer.len();
        assert(idx < len);
        let (existing_char, existing_color, existing_z) = self.char_buffer[idx as usize];
        if let Some(existing_z) = existing_z {
            if existing_z > z {
                assert(self.char_buffer@ =~= old(self).char_buffer@.update(idx as int, old(self).char_buffer@[idx as int]));
                return ;
            }
        }
        if c == existing_char && color == existing_color {
            assert(self.char_buffer@ =~= old(self).char_buffer@.update(idx as int, old(self).char_buffer@[idx as int]));
            return ;
        }
        self.char_buffer.set(idx as usize, (c, color, Some(z)));
    }

    /// Whether `render_rect` can fill the rectangle on the current layers
    /// (see `rect_renderable`).
    pub fn can_render_rect(&self, window_size: Vector2I, position: Vector2I, size: Vector2I) -> (ok: bool)
        ensures
            ok == rect_renderable(self.color_cells().len() as int, self.char_cells().len() as int, window_size, position, size),
    {
        let (px, py) = (position.0 as i128, position.1 as i128);
        let (sx, sy) = (size.0 as i128, size.1 as i128);
        let (wx, wy) = (window_size.0 as i128, window_size.1 as i128);
        let min = i64::MIN as i128;
        let max = i64::MAX as i128;
        if size.0 != 0 && size.1 != 0 && !(min <= px + sx && px + sx <= max && min <= py + sy && py + sy <= max) {
            return false;
        }
        let lo_x = if px >= 0 { px } else { 0 };
        let hi_x = if px + sx <= wx { px + sx } else { wx };
        let lo_y = if py >= 0 { py } else { 0 };
        let hi_y = if py + sy <= wy { py + sy } else { wy };
        if !(lo_x < hi_x && lo_y < hi_y) {
            return true;
        }
        assert(-0x8000_0000_0000_0000 <= hi_y <= 0x7fff_ffff_ffff_ffff);
        assert(-0x8000_0000_0000_0000 <= wx <= 0x7fff_ffff_ffff_ffff);
        assert(-0x4000_0000_0000_0000_0000_0000_0000_0000 <= hi_y * wx <= 0x4000_0000_0000_0000_0000_0000_0000_0000) by (nonlinear_arith)
            requires
                -0x8000_0000_0000_0000 <= hi_y <= 0x7fff_ffff_ffff_ffff,
                -0x8000_0000_0000_0000 <= wx <= 0x7fff_ffff_ffff_ffff,
        ;
        let row_end = hi_y * wx;
        if row_end > max {
            return false;
        }
        let last = row_end - wx + hi_x - 1;
        assert(last == (hi_y - 1) * wx + hi_x - 1) by (nonlinear_arith)
            requires
                row_end == hi_y * wx,
                last == row_end - wx + hi_x - 1,
        ;
        last < self.color_buffer.len() as i128 && last < self.char_buffer.len() as i128
    }

    /// Fills the part of the rectangle at `position` of size `size` that lies
    /// inside the window: each covered cell gets the color that `shader`
    /// gives it (if any) and, unless the fill character is a space, the fill
    /// character in white, all at depth `z`. Panics (so is not callable)
    /// when the arithmetic overflows or a covered cell lies outside a layer.
    pub fn render_rect<F: Fn(CPUShaderInput) -> Option<ColorKey>>(
        &mut self,
        window_size: Vector2I,
        position: Vector2I,
        size: Vector2I,
        color: ColorKey,
        c: char,
        shader: F,
        z: i64,
    )
        requires
            forall|input: CPUShaderInput| call_requires(shader, (input,)),
            rect_renderable(old(self).color_cells().len() as int, old(self).char_cells().len() as int, window_size, position, size),
        ensures
            ({
                let lo_x = max_int(position.0 as int, 0);
                let hi_x = min_int(position.0 + size.0, window_size.0 as int);
                let lo_y = max_int(position.1 as int, 0);
                let hi_y = min_int(position.1 + size.1, window_size.1 as int);
                let ww = window_size.0 as int;
                let old_colors = old(self).color_cells();
                let old_chars = old(self).char_cells();
                let new_colors = final(self).color_cells();
                let new_chars = final(self).char_cells();
                &&& !(lo_x < hi_x && lo_y < hi_y) ==> new_colors == old_colors && new_chars == old_chars
                &&& lo_x < hi_x && lo_y < hi_y ==> {
                    &&& new_colors.len() == old_colors.len()
                    &&& new_chars.len() == old_chars.len()
                    &&& forall|i: int| 0 <= i < old_colors.len() && !rect_covers(i, ww, lo_x, hi_x, lo_y, hi_y)
                        ==> #[trigger] new_colors[i] == old_colors[i]
                    &&& forall|i: int| 0 <= i < old_chars.len() && !rect_covers(i, ww, lo_x, hi_x, lo_y, hi_y)
                        ==> #[trigger] new_chars[i] == old_chars[i]
                    &&& forall|i: int| 0 <= i < old_chars.len() && rect_covers(i, ww, lo_x, hi_x, lo_y, hi_y)
                        ==> #[trigger] new_chars[i] == char_filled(old_chars[i], rect_char(c), z)
                    &&& forall|i: int| 0 <= i < old_colors.len() && #[trigger] rect_covers(i, ww, lo_x, hi_x, lo_y, hi_y)
                        ==> exists|shaded: Option<ColorKey>| call_ensures(shader, (shader_input_at(i, ww, position, size, color),), shaded)
                            && new_colors[i] == color_shaded(old_colors[i], shaded, z)
                }
            }),
    {
        let Vector2I(width, height) = size;
        if width == 0 || height == 0 {
            return ;
        }
        let Vector2I(window_width, window_height) = window_size;
        let Vector2I(pos_x, pos_y) = position;
        let fill = match c {
            '\0' => ' ',
            '\n' => ' ',
            '\t' => ' ',
            _ => c,
        };
        let min_x = if pos_x >= 0 { pos_x } else { 0 };
        let max_x = if pos_x + width <= window_width { pos_x + width } else { window_width };
        let min_y = if pos_y >= 0 { pos_y } else { 0 };
        let max_y = if pos_y + height <= window_height { pos_y + height } else { window_height };
        let ghost ww = window_width as int;
        let ghost old_colors = self.color_buffer@;
        let ghost old_chars = self.char_buffer@;
        if !(min_x < max_x && min_y < max_y) {
            return ;
        }
        let ghost mut shades: Seq<Option<ColorKey>> = Seq::new(old_colors.len(), |i: int| None);
        let mut ry = min_y;
        while ry < max_y
            invariant
                forall|input: CPUShaderInput| call_requires(shader, (input,)),
                fill == rect_char(c),
                min_x == max_int(pos_x as int, 0),
                max_x == min_int(pos_x + width, window_width as int),
                min_y == max_int(pos_y as int, 0),
                max_y == min_int(pos_y + height, window_height as int),
                min_x < max_x,
                min_y <= ry <= max_y,
                ww == window_width,
                ww >= 1,
                position == Vector2I(pos_x, pos_y),
                shades.len() == old_colors.len(),
                max_y * ww <= i64::MAX,
                (max_y - 1) * ww + max_x - 1 < old_colors.len(),
                (max_y - 1) * ww + max_x - 1 < old_chars.len(),
                self.color_buffer@.len() == old_colors.len(),
                self.char_buffer@.len() == old_chars.len(),
                forall|i: int| 0 <= i < old_colors.len() && !(rect_covers(i, ww, min_x as int, max_x as int, min_y as int, max_y as int) && visited_before(i, ww, min_x as int, ry as int))
                    ==> #[trigger] self.color_buffer@[i] == old_colors[i],
                forall|i: int| 0 <= i < old_chars.len() && !(rect_covers(i, ww, min_x as int, max_x as int, min_y as int, max_y as int) && visited_before(i, ww, min_x as int, ry as int))
                    ==> #[trigger] self.char_buffer@[i] == old_chars[i],
                forall|i: int| 0 <= i < old_chars.len() && rect_covers(i, ww, min_x as int, max_x as int, min_y as int, max_y as int) && visited_before(i, ww, min_x as int, ry as int)
                    ==> #[trigger] self.char_buffer@[i] == char_filled(old_chars[i], fill, z),
                forall|i: int| #![trigger self.color_buffer@[i]] #![trigger shades[i]] 0 <= i < old_colors.len() && rect_covers(i, ww, min_x as int, max_x as int, min_y as int, max_y as int) && visited_before(i, ww, min_x as int, ry as int)
                    ==> call_ensures(shader, (shader_input_at(i, ww, position, size, color),), shades[i])
                        && self.color_buffer@[i] == color_shaded(old_colors[i], shades[i], z),
            decreases max_y - ry,
        {
            let mut rx = min_x;
            while rx < max_x
                invariant
                    forall|input: CPUShaderInput| call_requires(shader, (input,)),
                    fill == rect_char(c),
                    min_x == max_int(pos_x as int, 0),
                    max_x == min_int(pos_x + width, window_width as int),
                    min_y == max_int(pos_y as int, 0),
                    max_y == min_int(pos_y + height, window_height as int),
                    min_x <= rx <= max_x,
                    min_y <= ry < max_y,
                    ww == window_width,
                    ww >= 1,
                    position == Vector2I(pos_x, pos_y),
                    shades.len() == old_colors.len(),
                    max_y * ww <= i64::MAX,
                    (max_y - 1) * ww + max_x - 1 < old_colors.len(),
                    (max_y - 1) * ww + max_x - 1 < old_chars.len(),
                    self.color_buffer@.len() == old_colors.len(),
                    self.char_buffer@.len() == old_chars.len(),
                    forall|i: int| 0 <= i < old_colors.len() && !(rect_covers(i, ww, min_x as int, max_x as int, min_y as int, max_y as int) && visited_before(i, ww, rx as int, ry as int))
                        ==> #[trigger] self.color_buffer@[i] == old_colors[i],
                    forall|i: int| 0 <= i < old_chars.len() && !(rect_covers(i, ww, min_x as int, max_x as int, min_y as int, max_y as int) && visited_before(i, ww, rx as int, ry as int))
                        ==> #[trigger] self.char_buffer@[i] == old_chars[i],
                    forall|i: int| 0 <= i < old_chars.len() && rect_covers(i, ww, min_x as int, max_x as int, min_y as int, max_y as int) && visited_before(i, ww, rx as int, ry as int)
                        ==> #[trigger] self.char_buffer@[i] == char_filled(old_chars[i], fill, z),
                    forall|i: int| #![trigger self.color_buffer@[i]] #![trigger shades[i]] 0 <= i < old_colors.len() && rect_covers(i, ww, min_x as int, max_x as int, min_y as int, max_y as int) && visited_before(i, ww, rx as int, ry as int)
                        ==> call_ensures(shader, (shader_input_at(i, ww, position, size, color),), shades[i])
                            && self.color_buffer@[i] == color_shaded(old_colors[i], shades[i], z),
                decreases max_x - rx,
            {
                let ghost k = ry * ww + rx;
                proof {
                    lemma_cell_coordinates(rx as int, ry as int, ww);
                    assert(ry * ww <= (max_y - 1) * ww) by (nonlinear_arith)
                        requires ry <= max_y - 1, ww >= 1;
                    assert((max_y - 1) * ww + ww <= i64::MAX) by (nonlinear_arith)
                        requires max_y * ww <= i64::MAX;
                    assert(0 <= ry * ww) by (nonlinear_arith)
                        requires ry >= 0, ww >= 1;
                }
                let local = Vector2I(rx - pos_x, ry - pos_y);
                let input = CPUShaderInput::new(local, size, color);
                let ghost before_colors = self.color_buffer@;
                let ghost before_chars = self.char_buffer@;
                let shaded = shader(input);
                assert(input == shader_input_at(k, ww, position, size, color));
                match shaded {
                    Some(shade) => {
                        self.draw_color(rx, ry, window_width, shade, z);
                    },
                    None => {},
                }
                assert(self.color_buffer@ == before_colors.update(k, color_shaded(before_colors[k], shaded, z)));
                if fill != ' ' {
                    self.draw_char(rx, ry, window_width, fill, ColorKey::white(), z);
                }
                assert(self.char_buffer@ == before_chars.update(k, char_filled(before_chars[k], fill, z)));
                proof {
                    shades = shades.update(k, shaded);
                    assert(!visited_before(k, ww, rx as int, ry as int));
                    assert(before_colors[k] == old_colors[k]);
                    assert(before_chars[k] == old_chars[k]);
                    assert forall|i: int| 0 <= i < old_colors.len() && i != k implies
                        visited_before(i, ww, rx + 1, ry as int) == visited_before(i, ww, rx as int, ry as int) by {
                        lemma_cell_from_coordinates(i, ww);
                    }
                    assert forall|i: int| 0 <= i < old_chars.len() && i != k implies
                        visited_before(i, ww, rx + 1, ry as int) == visited_before(i, ww, rx as int, ry as int) by {
                        lemma_cell_from_coordinates(i, ww);
                    }
                    assert(rect_covers(k, ww, min_x as int, max_x as int, min_y as int, max_y as int));
                    assert(visited_before(k, ww, rx + 1, ry as int));
                }
                rx = rx + 1;
            }
            proof {
                assert forall|i: int| 0 <= i < old_colors.len() && rect_covers(i, ww, min_x as int, max_x as int, min_y as int, max_y as int) implies
                    visited_before(i, ww, max_x as int, ry as int) == visited_before(i, ww, min_x as int, ry + 1) by {
                }
                assert forall|i: int| 0 <= i < old_chars.len() && rect_covers(i, ww, min_x as int, max_x as int, min_y as int, max_y as int) implies
                    visited_before(i, ww, max_x as int, ry as int) == visited_before(i, ww, min_x as int, ry + 1) by {
                }
            }
            ry = ry + 1;
        }
        proof {
            assert forall|i: int| 0 <= i < old_colors.len() && rect_covers(i, ww, min_x as int, max_x as int, min_y as int, max_y as int) implies
                visited_before(i, ww, min_x as int, max_y as int) by {
            }
            assert forall|i: int| 0 <= i < old_colors.len() && #[trigger] rect_covers(i, ww, min_x as int, max_x as int, min_y as int, max_y as int) implies
                exists|shaded: Option<ColorKey>| call_ensures(shader, (shader_input_at(i, ww, position, size, color),), shaded)
                    && self.color_cells()[i] == color_shaded(old_colors[i], shaded, z) by {
                assert(visited_before(i, ww, min_x as int, max_y as int));
                assert(call_ensures(shader, (shader_input_at(i, ww, position, size, color),), shades[i]));
                assert(self.color_cells()[i] == color_shaded(old_colors[i], shades[i], z));
            }
            assert forall|i: int| 0 <= i < old_chars.len() && rect_covers(i, ww, min_x as int, max_x as int, min_y as int, max_y as int) implies
                visited_before(i, ww, min_x as int, max_y as int) by {
            }
        }
    }

    /// Composites both layers of a `window_width` by `window_height` window
    /// into the terminal cells to draw, in row-major order. Panics (so is
    /// not callable) when the window has more cells than the layers or than
    /// fit in an `i32`.
    pub fn composite(&self, window_width: i32, window_height: i32) -> (cells: Vec<RenderedCell>)
        requires
            window_width > 0 && window_height > 0 ==> {
                &&& window_width * window_height <= i32::MAX
                &&& window_width * window_height <= self.color_cells().len()
                &&& window_width * window_height <= self.char_cells().len()
            },
        ensures
            cells@ == composited(
                self.color_cells(),
                self.char_cells(),
                window_width as int,
                if window_width > 0 && window_height > 0 { window_width * window_height } else { 0 },
            ),
    {
        let mut cells: Vec<RenderedCell> = Vec::new();
        if window_width <= 0 || window_height <= 0 {
            return cells;
        }
        let ghost ww = window_width as int;
        let mut y: i32 = 0;
        while y < window_height
            invariant
                0 <= y <= window_height,
                ww == window_width,
                window_width > 0,
                window_width * window_height <= i32::MAX,
                window_width * window_height <= self.color_buffer@.len(),
                window_width * window_height <= self.char_buffer@.len(),
                cells@ == composited(self.color_buffer@, self.char_buffer@, ww, y * ww),
            decreases window_height - y,
        {
            let mut x: i32 = 0;
            while x < window_width
                invariant
                    0 <= x <= window_width,
                    0 <= y < window_height,
                    ww == window_width,
                    window_width > 0,
                    window_width * window_height <= i32::MAX,
                    window_width * window_height <= self.color_buffer@.len(),
                    window_width * window_height <= self.char_buffer@.len(),
                    cells@ == composited(self.color_buffer@, self.char_buffer@, ww, y * ww + x),
                decreases window_width - x,
            {
                proof {
                    assert(y * ww + x < window_width * window_height) by (nonlinear_arith)
                        requires 0 <= x < ww, 0 <= y < window_height, ww == window_width;
                    assert(0 <= y * ww) by (nonlinear_arith)
                        requires 0 <= y, 0 < ww;
                    lemma_cell_coordinates(x as int, y as int, ww);
                }
                let idx = (y * window_width + x) as usize;
                let (color, color_z) = self.color_buffer[idx];
                let (c, char_color, char_z) = self.char_buffer[idx];
                let ghost i = y * ww + x;
                assert(composited(self.color_buffer@, self.char_buffer@, ww, i + 1) == {
                    let rest = composited(self.color_buffer@, self.char_buffer@, ww, i);
                    match composite_cell(self.color_buffer@[i], self.char_buffer@[i]) {
                        Some((c, foreground, background)) => rest.push(RenderedCell {
                            x: (i % ww) as i32,
                            y: (i / ww) as i32,
                            c,
                            foreground,
                            background,
                        }),
                        None => rest,
                    }
                });
                if color_z.is_some() || char_z.is_some() {
                    let char_below = match (char_z, color_z) {
                        (None, Some(_)) => true,
                        (Some(a), Some(b)) => a < b,
                        _ => false,
                    };
                    let char_level = match (char_z, color_z) {
                        (None, None) => true,
                        (Some(a), Some(b)) => a == b,
                        _ => false,
                    };
                    let cell = if char_below {
                        RenderedCell { x, y, c: ' ', foreground: ColorKey::white(), background: color }
                    } else if char_level {
                        RenderedCell { x, y, c, foreground: char_color, background: color }
                    } else {
                        RenderedCell { x, y, c, foreground: char_color, background: ColorKey::black() }
                    };
                    cells.push(cell);
                }
                x = x + 1;
            }
            assert(y * ww + ww == (y + 1) * ww) by (nonlinear_arith);
            y = y + 1;
        }
        assert(y * ww == window_width * window_height) by (nonlinear_arith)
            requires y == window_height, ww == window_width;
        cells
    }

    /// Gives both layers one cell per cell of a `window_width` by
    /// `window_height` window: existing cells are kept (up to the new size),
    /// added cells are cleared. Panics (so is not callable) when the cell
    /// count is negative or overflows.
    pub fn fit_buffers(&mut self, window_width: i64, window_height: i64)
        requires
            0 <= window_width * window_height <= i64::MAX,
            window_width * window_height <= usize::MAX,
        ensures
            ({
                let n = window_width * window_height;
                &&& final(self).color_cells().len() == n
                &&& final(self).char_cells().len() == n
                &&& forall|i: int| 0 <= i < n && i < old(self).color_cells().len()
                    ==> #[trigger] final(self).color_cells()[i] == old(self).color_cells()[i]
                &&& forall|i: int| 0 <= i < n && i < old(self).char_cells().len()
                    ==> #[trigger] final(self).char_cells()[i] == old(self).char_cells()[i]
                &&& forall|i: int| old(self).color_cells().len() <= i < n
                    ==> #[trigger] final(self).color_cells()[i] == cleared_color_cell()
                &&& forall|i: int| old(self).char_cells().len() <= i < n
                    ==> #[trigger] final(self).char_cells()[i] == cleared_char_cell()
            }),
    {
        let cell_count = (window_width * window_height) as usize;
        if self.color_buffer.len() > cell_count {
            self.color_buffer.truncate(cell_count);
        }
        while self.color_buffer.len() < cell_count
            invariant
                self.char_buffer@ == old(self).char_buffer@,
                self.color_buffer@.len() <= cell_count || self.color_buffer@.len() == old(self).color_buffer@.len(),
                forall|i: int| 0 <= i < self.color_buffer@.len() && i < old(self).color_buffer@.len()
                    ==> #[trigger] self.color_buffer@[i] == old(self).color_buffer@[i],
                forall|i: int| old(self).color_buffer@.len() <= i < self.color_buffer@.len()
                    ==> #[trigger] self.color_buffer@[i] == cleared_color_cell(),
                self.color_buffer@.len() >= cell_count ==> self.color_buffer@.len() == cell_count,
                self.color_buffer@.len() < cell_count ==> self.color_buffer@.len() >= old(self).color_buffer@.len(),
            decreases cell_count - self.color_buffer@.len(),
        {
            self.color_buffer.push((ColorKey::black(), None));
        }
        if self.char_buffer.len() > cell_count {
            self.char_buffer.truncate(cell_count);
        }
        while self.char_buffer.len() < cell_count
            invariant
                self.color_buffer@.len() == cell_count,
                forall|i: int| 0 <= i < cell_count && i < old(self).color_buffer@.len()
                    ==> #[trigger] self.color_buffer@[i] == old(self).color_buffer@[i],
                forall|i: int| old(self).color_buffer@.len() <= i < cell_count
                    ==> #[trigger] self.color_buffer@[i] == cleared_color_cell(),
                forall|i: int| 0 <= i < self.char_buffer@.len() && i < old(self).char_buffer@.len()
                    ==> #[trigger] self.char_buffer@[i] == old(self).char_buffer@[i],
                forall|i: int| old(self).char_buffer@.len() <= i < self.char_buffer@.len()
                    ==> #[trigger] self.char_buffer@[i] == cleared_char_cell(),
                self.char_buffer@.len() >= cell_count ==> self.char_buffer@.len() == cell_count,
                self.char_buffer@.len() < cell_count ==> self.char_buffer@.len() >= old(self).char_buffer@.len(),
            decreases cell_count - self.char_buffer@.len(),
        {
            self.char_buffer.push((' ', ColorKey::white(), None));
        }
    }

    /// Draws a line of text starting at `position` in a window of
    /// `window_size`: the part left of the window or past its right edge is
    /// cut off (by bytes), and nothing is drawn when nothing remains or the
    /// row lies outside the window. Panics (so is not callable) when a cut
    /// falls inside a character, a drawn character falls outside the layer,
    /// or the arithmetic overflows.
    pub fn render_string(&mut self, window_size: Vector2I, position: Vector2I, string: &str, color: ColorKey, z: i64)
        requires
            string_renderable(old(self).char_cells().len() as int, string.spec_bytes(), window_size, position),
        ensures
            final(self).color_cells() == old(self).color_cells(),
            final(self).char_cells() == string_rendered(old(self).char_cells(), string.spec_bytes(), window_size, position, color, z),
            final(self).char_cells().len() == old(self).char_cells().len(),
    {
        broadcast use vstd::string::group_string_axioms;
        broadcast use vstd::string::next_postcondition;
        broadcast use vstd::utf8::encode_utf8_decode_utf8;
        broadcast use vstd::utf8::encode_utf8_valid_utf8;
        broadcast use vstd::utf8::is_char_boundary_start_end_of_seq;
        let Vector2I(window_width, window_height) = window_size;
        let Vector2I(x, y) = position;
        let ghost bytes = string.spec_bytes();
        let len = string.len() as i64;
        let mut new_x = x;
        let mut new_str: &str = string;
        if x < -len {
            let (_, tail) = string.split_at(string.len());
            new_str = tail;
        } else if x < 0 {
            new_x = 0;
            let (_, tail) = string.split_at((len - (len + x)) as usize);
            new_str = tail;
        }
        let ghost start: int = if x < -len { len as int } else if x < 0 { -x } else { 0 };
        assert(new_str.spec_bytes() =~= bytes.subrange(start, len as int));
        if new_x > window_width {
            let (_, tail) = new_str.split_at(new_str.len());
            new_str = tail;
        } else if new_x > window_width - new_str.len() as i64 {
            let (head, _) = new_str.split_at((window_width - new_x) as usize);
            new_str = head;
        }
        let ghost (s0, end, nx) = visible_bytes(len as int, x as int, window_width as int);
        assert(s0 == start && nx == new_x);
        assert(new_str.spec_bytes() =~= bytes.subrange(start, end));
        let visible_len = new_str.len() as i64;
        if visible_len <= 0 || y < 0 || y >= window_height {
            return ;
        }
        let ghost visible = new_str@;
        proof {
            lemma_encoding_not_shorter(visible);
        }
        assert(visible == decode_utf8(bytes.subrange(start, end)));
        let ghost target = text_drawn(self.char_buffer@, text_layout(visible, 0, y as int), new_x as int, window_width as int, color, z);
        let mut chars = new_str.chars();
        let mut col: i32 = 0;
        let mut row: i64 = y;
        let ghost mut consumed: int = 0;
        loop
            invariant
                0 <= consumed <= visible.len(),
                chars.remaining() == visible.subrange(consumed, visible.len() as int),
                chars.obeys_prophetic_iter_laws(),
                0 <= col <= 4 * consumed,
                4 * visible.len() <= i32::MAX,
                y <= row <= y + consumed,
                y + visible.len() <= i64::MAX,
                text_fits(old(self).char_buffer@.len() as int, text_layout(chars.remaining(), col as int, row as int), new_x as int, window_width as int),
                self.color_buffer@ == old(self).color_buffer@,
                self.char_buffer@.len() == old(self).char_buffer@.len(),
                text_drawn(self.char_buffer@, text_layout(chars.remaining(), col as int, row as int), new_x as int, window_width as int, color, z) == target,
            ensures
                self.char_buffer@ == target,
                self.color_buffer@ == old(self).color_buffer@,
            decreases visible.len() - consumed,
        {
            let ghost before = chars.remaining();
            let next = chars.next();
            match next {
                None => {
                    break;
                },
                Some(c) => {
                    proof {
                        consumed = consumed + 1;
                    }
                    assert(before.len() > 0 && before[0] == c && before.drop_first() == chars.remaining());
                    let ghost old_col = col as int;
                    let ghost old_row = row as int;
                    if c == '\0' {
                        assert(text_layout(before, old_col, old_row) == text_layout(chars.remaining(), col as int, row as int));
                    } else if c == '\n' {
                        col = 0;
                        row = row + 1;
                        assert(text_layout(before, old_col, old_row) == text_layout(chars.remaining(), col as int, row as int));
                    } else if c == '\t' {
                        col = col + (4 - col % 4);
                        assert(text_layout(before, old_col, old_row) == text_layout(chars.remaining(), col as int, row as int));
                    } else {
                        let ghost rest_layout = text_layout(chars.remaining(), col + 1, row as int);
                        assert(text_layout(before, old_col, old_row) == seq![(old_col, old_row, c)] + rest_layout);
                        assert((seq![(old_col, old_row, c)] + rest_layout).drop_first() =~= rest_layout);
                        assert((seq![(old_col, old_row, c)] + rest_layout)[0] == (old_col, old_row, c));
                        proof {
                            lemma_text_fits_rest(old(self).char_buffer@.len() as int, (col as int, row as int, c), text_layout(chars.remaining(), col + 1, row as int), new_x as int, window_width as int);
                        }
                        self.draw_char(new_x + col as i64, row, window_width, c, color, z);
                        col = col + 1;
                    }
                },
            }
        }
        proof {
            lemma_text_drawn_len(old(self).char_buffer@, text_layout(visible, 0, y as int), new_x as int, window_width as int, color, z);
        }
    }

    /// Draws a text line by line: its lines (split at newlines) one under
    /// the other, the first at `position`. Panics (so is not callable) when
    /// a line cannot be drawn or a row overflows.
    pub fn render_text(&mut self, window_size: Vector2I, position: Vector2I, text: &str, color: ColorKey, z: i64)
        requires
            lines_renderable(old(self).char_cells().len() as int, byte_lines(text.spec_bytes()), window_size, position),
        ensures
            final(self).color_cells() == old(self).color_cells(),
            final(self).char_cells() == lines_rendered(
                old(self).char_cells(),
                byte_lines(text.spec_bytes()),
                window_size,
                position,
                color,
                z,
            ),
    {
        broadcast use vstd::utf8::encode_utf8_valid_utf8;
        let ghost all = byte_lines(text.spec_bytes());
        let ghost cell_count = old(self).char_cells().len() as int;
        let ghost target = lines_rendered(old(self).char_cells(), all, window_size, position, color, z);
        let mut rest: &str = text;
        let ghost mut i: int = 0;
        let mut row: i64 = position.1;
        proof {
            vstd::utf8::encode_utf8_valid_utf8(text@);
            assert(all.subrange(0, all.len() as int) =~= all);
        }
        loop
            invariant_except_break
                byte_lines(rest.spec_bytes()) == all.subrange(i, all.len() as int),
                lines_rendered(
                    self.char_cells(),
                    byte_lines(rest.spec_bytes()),
                    window_size,
                    Vector2I(position.0, row),
                    color,
                    z,
                ) == target,
                0 <= i < all.len(),
                row == position.1 + i,
            invariant
                vstd::utf8::valid_utf8(rest.spec_bytes()),
                all == byte_lines(text.spec_bytes()),
                lines_renderable(cell_count, all, window_size, position),
                self.char_cells().len() == cell_count,
                self.color_cells() == old(self).color_cells(),
            ensures
                self.char_cells() == target,
            decreases rest.spec_bytes().len(),
        {
            let ghost rb = rest.spec_bytes();
            let bytes = rest.as_bytes();
            let mut p: usize = 0;
            while p < bytes.len() && bytes[p] != 10
                invariant
                    0 <= p <= bytes@.len(),
                    bytes@ == rb,
                    forall|j: int| 0 <= j < p ==> bytes@[j] != 10,
                decreases bytes@.len() - p,
            {
                p = p + 1;
            }
            proof {
                lemma_first_newline(rb, p as int);
                if p < bytes.len() {
                    vstd::utf8::is_char_boundary_iff_not_is_continuation_byte(rb, p as int);
                } else {
                    vstd::utf8::is_char_boundary_start_end_of_seq(rb);
                }
            }
            let (line, tail) = rest.split_at(p);
            let ghost remaining = byte_lines(rb);
            assert(remaining[0] == line.spec_bytes());
            assert(all[i] == line.spec_bytes()) by {
                assert(remaining[0] == all.subrange(i, all.len() as int)[0]);
            }
            assert(string_renderable(cell_count, all[i], window_size, Vector2I(position.0, (position.1 + i) as i64)));
            let ghost before = self.char_cells();
            self.render_string(window_size, Vector2I(position.0, row), line, color, z);
            assert(self.char_cells() == string_rendered(before, remaining[0], window_size, Vector2I(position.0, row), color, z));
            if p == bytes.len() {
                assert(remaining.len() == 1);
                assert(remaining.drop_first().len() == 0);
                assert(lines_rendered(self.char_cells(), remaining.drop_first(), window_size, Vector2I(position.0, (row + 1) as i64), color, z) == self.char_cells());
                break;
            }
            proof {
                vstd::utf8::encode_utf8_valid_utf8(tail@);
                lemma_boundary_after_newline(tail.spec_bytes());
            }
            let (_, after) = tail.split_at(1);
            assert(after.spec_bytes() =~= rb.subrange(p + 1, rb.len() as int));
            assert(remaining.drop_first() == byte_lines(after.spec_bytes()));
            assert(byte_lines(after.spec_bytes()) =~= all.subrange(i + 1, all.len() as int));
            assert(i + 1 < all.len());
            rest = after;
            row = row + 1;
            proof {
                i = i + 1;
            }
        }
    }

    /// The curses cell to draw for a composited cell whose foreground and
    /// background colors are `pair` in curses units: its position and its
    /// character in that color pair, which is registered in the color set
    /// (and defined on the terminal) when it is new.
    pub fn curses_cell_for(
        &self,
        cell: &RenderedCell,
        pair: &PancursesColorPair,
        colors: &mut PancursesColorSetComponent,
        commands: &mut Vec<CursesCommand>,
    ) -> (drawn: (i32, i32, u32))
        requires
            old(colors).wf(),
            old(colors).can_register_pair(*pair),
        ensures
            drawn == (cell.x, cell.y, curses_cell(cell.c, old(colors).pair_index_after(*pair) as u32)),
            final(colors).wf(),
            old(colors).pair_registered(*final(colors), *pair),
            final(commands)@ == old(commands)@ + old(colors).pair_commands(*pair),
    {
        let index = colors.get_color_pair_idx(pair, commands);
        (cell.x, cell.y, cell_with_pair(cell.c, index as u32))
    }
}

} // verus!
