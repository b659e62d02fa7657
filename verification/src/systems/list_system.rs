//! A list control: its strings split into lines that fit its width, the
//! item under the mouse, the selected item, and the rows that show them.

use std::collections::HashMap;

use vstd::prelude::*;
use vstd::string::StringSliceAdditionalSpecFns;
use vstd::utf8::{encode_utf8, is_char_boundary, valid_utf8};

use crate::components::int_range::{clamp_index, IntRangeComponent};
use crate::primitive_types::{InputEvent, Vector2I};

verus! {

/// The index of the first newline byte, or the length when there is none.
pub open spec fn first_newline(bytes: Seq<u8>) -> int
    decreases bytes.len(),
{
    if bytes.len() == 0 {
        0
    } else if bytes[0] == 10 {
        0
    } else {
        1 + first_newline(bytes.drop_first())
    }
}

/// The pieces of `bytes` between newline bytes: one more piece than there
/// are newlines, empty pieces included.
pub open spec fn byte_lines(bytes: Seq<u8>) -> Seq<Seq<u8>>
    decreases bytes.len(),
{
    let p = first_newline(bytes);
    if p < 0 || p >= bytes.len() {
        seq![bytes]
    } else {
        seq![bytes.subrange(0, p)] + byte_lines(bytes.subrange(p + 1, bytes.len() as int))
    }
}

/// The first `width` bytes of a line, or all of them when it is shorter.
pub open spec fn line_cut(line: Seq<u8>, width: int) -> Seq<u8> {
    line.subrange(0, if width < line.len() { width } else { line.len() as int })
}

/// Whether every line of the text can be cut after `width` bytes without
/// splitting a character.
pub open spec fn cuts_fall_on_boundaries(bytes: Seq<u8>, width: int) -> bool {
    forall|i: int|
        0 <= i < byte_lines(bytes).len() ==> is_char_boundary(
            #[trigger] byte_lines(bytes)[i],
            if width < byte_lines(bytes)[i].len() { width } else { byte_lines(bytes)[i].len() as int },
        )
}

/// Lines joined back together with a newline between each two.
pub open spec fn join_lines(lines: Seq<Seq<u8>>) -> Seq<u8>
    decreases lines.len(),
{
    if lines.len() == 0 {
        Seq::empty()
    } else if lines.len() == 1 {
        lines[0]
    } else {
        lines[0] + seq![10u8] + join_lines(lines.drop_first())
    }
}

/// Splitting a text at its newlines loses nothing: no line holds a newline,
/// and joining the lines with newlines gives the text back.
pub proof fn lemma_lines_rejoin(bytes: Seq<u8>)
    ensures
        byte_lines(bytes).len() >= 1,
        join_lines(byte_lines(bytes)) == bytes,
        forall|i: int, j: int|
            0 <= i < byte_lines(bytes).len() && 0 <= j < byte_lines(bytes)[i].len() ==> #[trigger] byte_lines(
                bytes,
            )[i][j] != 10,
    decreases bytes.len(),
{
    let p = first_newline(bytes);
    lemma_first_newline_facts(bytes);
    if p < bytes.len() {
        let rest = bytes.subrange(p + 1, bytes.len() as int);
        lemma_lines_rejoin(rest);
        let lines = byte_lines(bytes);
        assert(lines == seq![bytes.subrange(0, p)] + byte_lines(rest));
        assert(lines.drop_first() =~= byte_lines(rest));
        assert(bytes =~= bytes.subrange(0, p) + seq![10u8] + rest);
        assert forall|i: int, j: int|
            0 <= i < lines.len() && 0 <= j < lines[i].len() implies #[trigger] lines[i][j] != 10 by {
            if i > 0 {
                assert(lines[i] == byte_lines(rest)[i - 1]);
            }
        }
    } else {
        assert forall|i: int, j: int|
            0 <= i < byte_lines(bytes).len() && 0 <= j < byte_lines(bytes)[i].len() implies #[trigger] byte_lines(
                bytes,
            )[i][j] != 10 by {
            assert(byte_lines(bytes)[i] == bytes);
        }
    }
}

/// The first newline lies within the text, all bytes before it are no
/// newlines, and it is one unless it is the end.
proof fn lemma_first_newline_facts(bytes: Seq<u8>)
    ensures
        0 <= first_newline(bytes) <= bytes.len(),
        forall|j: int| 0 <= j < first_newline(bytes) ==> bytes[j] != 10,
        first_newline(bytes) < bytes.len() ==> bytes[first_newline(bytes)] == 10,
    decreases bytes.len(),
{
    if bytes.len() > 0 && bytes[0] != 10 {
        let rest = bytes.drop_first();
        lemma_first_newline_facts(rest);
        assert forall|j: int| 0 <= j < first_newline(bytes) implies bytes[j] != 10 by {
            if j > 0 {
                assert(bytes[j] == rest[j - 1]);
            }
        }
    }
}

/// No line that a list control shows is longer than its width.
pub proof fn lemma_shown_lines_fit(text: Seq<char>, width: int)
    requires
        width >= 0,
    ensures
        forall|j: int| 0 <= j < item_lines(text, width).len() ==> (#[trigger] item_lines(text, width)[j]).len() <= width,
{
}

pub(crate) proof fn lemma_first_newline(bytes: Seq<u8>, i: int)
    requires
        0 <= i <= bytes.len(),
        forall|j: int| 0 <= j < i ==> bytes[j] != 10,
        i == bytes.len() || bytes[i] == 10,
    ensures
        first_newline(bytes) == i,
    decreases i,
{
    if i > 0 {
        lemma_first_newline(bytes.drop_first(), i - 1);
    }
}

/// A newline byte of a text is followed by a character boundary.
pub(crate) proof fn lemma_boundary_after_newline(bytes: Seq<u8>)
    requires
        valid_utf8(bytes),
        bytes.len() > 0,
        bytes[0] == 10,
    ensures
        is_char_boundary(bytes, 1),
{
    reveal_with_fuel(is_char_boundary, 2);
}

/// Splits a text at its newlines and cuts every line after `width` bytes.
/// A negative width, or a cut inside a character, panics, so neither is
/// callable.
pub fn split_lines(string: &str, width: i64) -> (lines: Vec<String>)
    requires
        width >= 0,
        cuts_fall_on_boundaries(string.spec_bytes(), width as int),
    ensures
        lines@.len() == byte_lines(string.spec_bytes()).len(),
        forall|i: int|
            0 <= i < lines@.len() ==> encode_utf8(#[trigger] lines@[i]@) == line_cut(
                byte_lines(string.spec_bytes())[i],
                width as int,
            ),
{
    broadcast use vstd::utf8::encode_utf8_valid_utf8;
    broadcast use vstd::utf8::is_char_boundary_iff_not_is_continuation_byte;
    broadcast use vstd::utf8::is_char_boundary_start_end_of_seq;
    let ghost all = byte_lines(string.spec_bytes());
    let mut lines: Vec<String> = Vec::new();
    let mut rest: &str = string;
    loop
        invariant_except_break
            lines@.len() + byte_lines(rest.spec_bytes()).len() == all.len(),
            forall|i: int| 0 <= i < byte_lines(rest.spec_bytes()).len()
                ==> #[trigger] byte_lines(rest.spec_bytes())[i] == all[lines@.len() + i],
        invariant
            valid_utf8(rest.spec_bytes()),
            all == byte_lines(string.spec_bytes()),
            width >= 0,
            cuts_fall_on_boundaries(string.spec_bytes(), width as int),
            forall|i: int| 0 <= i < lines@.len() ==> encode_utf8(#[trigger] lines@[i]@) == line_cut(all[i], width as int),
        ensures
            lines@.len() == all.len(),
            forall|i: int| 0 <= i < lines@.len() ==> encode_utf8(#[trigger] lines@[i]@) == line_cut(all[i], width as int),
        decreases rest.spec_bytes().len(),
    {
        let ghost rb = rest.spec_bytes();
        let bytes = rest.as_bytes();
        let mut p: usize = 0;
        while p < bytes.len() && bytes[p] != 10
            invariant
                0 <= p <= bytes@.len(),
                bytes@ == rb,
                forall|j: int| 0 <= j < p ==> bytes@[j] != 10,
            decreases bytes@.len() - p,
        {
            p = p + 1;
        }
        proof {
            lemma_first_newline(rb, p as int);
        }
        let k = lines.len();
        assert(byte_lines(rb)[0] == all[k as int]);
        if p < bytes.len() {
            proof {
                vstd::utf8::is_char_boundary_iff_not_is_continuation_byte(rb, p as int);
            }
        } else {
            proof {
                vstd::utf8::is_char_boundary_start_end_of_seq(rb);
            }
        }
        let (line, tail) = rest.split_at(p);
        assert(line.spec_bytes() == byte_lines(rb)[0]);
        let cut: usize = if (line.len() as u64) <= (width as u64) { line.len() } else { width as usize };
        assert(is_char_boundary(all[k as int], cut as int));
        let (kept, _) = line.split_at(cut);
        lines.push(kept.to_owned());
        assert(encode_utf8(lines@[k as int]@) == kept.spec_bytes());
        if p == bytes.len() {
            assert(byte_lines(rb).len() == 1);
            break;
        }
        proof {
            vstd::utf8::encode_utf8_valid_utf8(tail@);
            lemma_boundary_after_newline(tail.spec_bytes());
        }
        let (_, after) = tail.split_at(1);
        assert(after.spec_bytes() =~= rb.subrange(p + 1, rb.len() as int));
        assert(byte_lines(rb) == seq![line.spec_bytes()] + byte_lines(after.spec_bytes()));
        assert forall|i: int| 0 <= i < byte_lines(after.spec_bytes()).len()
            implies #[trigger] byte_lines(after.spec_bytes())[i] == all[lines@.len() + i] by {
            assert(byte_lines(after.spec_bytes())[i] == byte_lines(rb)[i + 1]);
        }
        rest = after;
    }
    lines
}

/// The sum of the counts.
pub open spec fn count_sum(counts: Seq<usize>) -> int
    decreases counts.len(),
{
    if counts.len() == 0 {
        0
    } else {
        count_sum(counts.drop_last()) + counts.last()
    }
}

/// Whether the local mouse position lies inside a control `width` wide and
/// `height` high.
pub open spec fn contains_mouse(local_mouse: Option<Vector2I>, width: int, height: int) -> bool {
    match local_mouse {
        Some(Vector2I(x, y)) => 0 <= x < width && 0 <= y < height,
        None => false,
    }
}

/// The first item whose lines reach below row `y` when the items are laid
/// out one under the other, `counts[i]` lines for item `i`.
pub open spec fn first_item_below(counts: Seq<usize>, y: int) -> Option<int>
    decreases counts.len(),
{
    if counts.len() == 0 {
        None
    } else if counts[0] > y {
        Some(0)
    } else {
        match first_item_below(counts.drop_first(), y - counts[0]) {
            Some(i) => Some(i + 1),
            None => None,
        }
    }
}

/// The item found lies among the items.
proof fn lemma_first_item_below_bounds(counts: Seq<usize>, y: int)
    ensures
        first_item_below(counts, y) matches Some(i) ==> 0 <= i < counts.len(),
    decreases counts.len(),
{
    if counts.len() > 0 {
        lemma_first_item_below_bounds(counts.drop_first(), y - counts[0]);
    }
}

/// A sum of counts is the first count plus the sum of the rest.
proof fn lemma_count_sum_first(counts: Seq<usize>)
    requires
        counts.len() > 0,
    ensures
        count_sum(counts) == counts[0] + count_sum(counts.drop_first()),
    decreases counts.len(),
{
    if counts.len() == 1 {
        assert(count_sum(counts.drop_last()) == 0);
        assert(count_sum(counts.drop_first()) == 0);
        assert(counts.last() == counts[0]);
    } else {
        let dl = counts.drop_last();
        let df = counts.drop_first();
        lemma_count_sum_first(dl);
        assert(df.drop_last() =~= dl.drop_first());
        assert(df.last() == counts.last());
        assert(dl[0] == counts[0]);
        assert(count_sum(df) == count_sum(df.drop_last()) + df.last());
        assert(count_sum(counts) == count_sum(dl) + counts.last());
    }
}

/// The item found under row `y` (counted from the top of the control) is
/// the one whose rows span `y`: the items before it take fewer than `y + 1`
/// rows, and with it they reach below `y`. No item is found exactly when
/// all items together end at or above `y`.
pub proof fn lemma_item_below_spans_row(counts: Seq<usize>, y: int)
    requires
        y >= 0,
    ensures
        first_item_below(counts, y) matches Some(i) ==> {
            &&& 0 <= i < counts.len()
            &&& count_sum(counts.take(i)) <= y < count_sum(counts.take(i + 1))
        },
        first_item_below(counts, y) is None ==> count_sum(counts) <= y,
    decreases counts.len(),
{
    if counts.len() == 0 {
    } else {
        lemma_count_sum_first(counts);
        let rest = counts.drop_first();
        if counts[0] > y {
            assert(counts.take(0).len() == 0);
            lemma_count_sum_first(counts.take(1));
            assert(counts.take(1).drop_first().len() == 0);
        } else {
            lemma_item_below_spans_row(rest, y - counts[0]);
            match first_item_below(rest, y - counts[0]) {
                Some(j) => {
                    lemma_count_sum_first(counts.take(j + 1));
                    lemma_count_sum_first(counts.take(j + 2));
                    assert(counts.take(j + 1).drop_first() =~= rest.take(j));
                    assert(counts.take(j + 2).drop_first() =~= rest.take(j + 1));
                },
                None => {},
            }
        }
    }
}

/// The item under the mouse: only while the mouse is inside the control.
pub open spec fn hovered_item_spec(counts: Seq<usize>, local_mouse: Option<Vector2I>, width: int, height: int) -> Option<int> {
    match local_mouse {
        Some(Vector2I(_, y)) => if contains_mouse(local_mouse, width, height) {
            first_item_below(counts, y as int)
        } else {
            None
        },
        None => None,
    }
}

/// The item under the mouse, for items of `counts[i]` lines each laid out
/// from the top of a control `width` wide and `height` high; none while the
/// mouse is outside the control.
pub fn hovered_item(counts: &Vec<usize>, local_mouse: Option<Vector2I>, width: i64, height: i64) -> (item: Option<usize>)
    requires
        count_sum(counts@) <= usize::MAX,
    ensures
        item == match hovered_item_spec(counts@, local_mouse, width as int, height as int) {
            Some(i) => Some(i as usize),
            None => None::<usize>,
        },
        item matches Some(i) ==> i < counts@.len(),
        hovered_item_spec(counts@, local_mouse, width as int, height as int) matches Some(i) ==> 0 <= i < counts@.len(),
{
    if let Some(Vector2I(_, y)) = local_mouse {
        proof {
            lemma_first_item_below_bounds(counts@, y as int);
        }
    }
    let (mouse_x, mouse_y) = match local_mouse {
        Some(Vector2I(x, y)) => (x, y),
        None => {
            return None;
        },
    };
    if !(0 <= mouse_x && mouse_x < width && 0 <= mouse_y && mouse_y < height) {
        return None;
    }
    let mut total: usize = 0;
    let mut k: usize = 0;
    assert(counts@.subrange(0, counts@.len() as int) =~= counts@);
    assert(counts@.subrange(0, 0).len() == 0);
    while k < counts.len()
        invariant
            0 <= k <= counts@.len(),
            0 <= mouse_y < height,
            0 <= mouse_x < width,
            local_mouse == Some(Vector2I(mouse_x, mouse_y)),
            count_sum(counts@) <= usize::MAX,
            total == count_sum(counts@.subrange(0, k as int)),
            total <= mouse_y,
            first_item_below(counts@, mouse_y as int) == match first_item_below(
                counts@.subrange(k as int, counts@.len() as int),
                mouse_y - total,
            ) {
                Some(i) => Some(i + k),
                None => None::<int>,
            },
        decreases counts@.len() - k,
    {
        let ghost rest = counts@.subrange(k as int, counts@.len() as int);
        assert(rest.drop_first() =~= counts@.subrange(k + 1, counts@.len() as int));
        assert(counts@.subrange(0, k + 1).drop_last() =~= counts@.subrange(0, k as int));
        proof {
            lemma_count_sum_prefix_bound(counts@, k + 1);
        }
        let ghost before_total = total as int;
        total = total + counts[k];
        assert(rest[0] == counts@[k as int]);
        if total as u64 > mouse_y as u64 {
            assert(first_item_below(rest, mouse_y - before_total) == Some(0int));
            assert(first_item_below(counts@, mouse_y as int) == Some(k as int));
            assert(local_mouse == Some(Vector2I(mouse_x, mouse_y)));
            assert(contains_mouse(local_mouse, width as int, height as int));
            assert(hovered_item_spec(counts@, local_mouse, width as int, height as int) == Some(k as int));
            return Some(k);
        }
        k = k + 1;
    }
    None
}

/// A prefix sums to no more than the whole.
proof fn lemma_count_sum_prefix_bound(counts: Seq<usize>, k: int)
    requires
        0 <= k <= counts.len(),
    ensures
        count_sum(counts.subrange(0, k)) <= count_sum(counts),
    decreases counts.len(),
{
    if k < counts.len() {
        assert(counts.drop_last().subrange(0, k) =~= counts.subrange(0, k));
        lemma_count_sum_prefix_bound(counts.drop_last(), k);
    } else {
        assert(counts.subrange(0, k) =~= counts);
    }
}

/// The lines of item `m`, each with the item's index.
pub open spec fn item_rows(lists: Seq<Vec<String>>, m: int) -> Seq<(int, Seq<char>)> {
    Seq::new(lists[m]@.len(), |j: int| (m, lists[m]@[j]@))
}

/// The lines of all items one after the other, each with its item's index.
pub open spec fn flat_lines(lists: Seq<Vec<String>>) -> Seq<(int, Seq<char>)>
    decreases lists.len(),
{
    if lists.len() == 0 {
        Seq::empty()
    } else {
        flat_lines(lists.drop_last()) + item_rows(lists, lists.len() - 1)
    }
}

/// How many rows a list control shows: one per line up to its height, but
/// at least the first line.
pub open spec fn shown_rows(total: int, height: int) -> int {
    let rows = if height < 1 { 1 } else { height };
    if total < rows { total } else { rows }
}

/// A list control shows no more rows than it has lines, and no more than
/// its height (but the first line even when it has no height).
pub proof fn lemma_shown_rows_bounded(total: int, height: int)
    requires
        total >= 0,
    ensures
        0 <= shown_rows(total, height) <= total,
        height >= 1 ==> shown_rows(total, height) <= height,
        height < 1 ==> shown_rows(total, height) <= 1,
        total > 0 ==> shown_rows(total, height) > 0,
{
}

/// The lines of the first `m` items lead the lines of all items.
proof fn lemma_flat_prefix(lists: Seq<Vec<String>>, m: int)
    requires
        0 <= m <= lists.len(),
    ensures
        flat_lines(lists.subrange(0, m)).len() <= flat_lines(lists).len(),
        forall|k: int| 0 <= k < flat_lines(lists.subrange(0, m)).len()
            ==> #[trigger] flat_lines(lists.subrange(0, m))[k] == flat_lines(lists)[k],
    decreases lists.len(),
{
    if m == lists.len() {
        assert(lists.subrange(0, m) =~= lists);
    } else {
        assert(lists.drop_last().subrange(0, m) =~= lists.subrange(0, m));
        lemma_flat_prefix(lists.drop_last(), m);
    }
}

/// One row of a list control: the row (also the slot of the string entity
/// that shows it), the item the line belongs to, the line's text, and
/// whether that item is the selected one.
#[derive(Debug, Clone)]
pub struct ListLine {
    pub y: i64,
    pub item: usize,
    pub text: String,
    pub focused: bool,
}

/// Lays out the lines of the items from the top, one per row, until the
/// height of the control is filled (the first line is always shown), and
/// marks the lines of the selected item.
pub fn list_lines(lists: &Vec<Vec<String>>, height: i64, focused: Option<i64>) -> (lines: Vec<ListLine>)
    requires
        lists@.len() <= i64::MAX,
    ensures
        lines@.len() == shown_rows(flat_lines(lists@).len() as int, height as int),
        forall|k: int|
            0 <= k < lines@.len() ==> {
                let line = #[trigger] lines@[k];
                &&& line.y == k
                &&& line.item == flat_lines(lists@)[k].0
                &&& line.text@ == flat_lines(lists@)[k].1
                &&& line.focused == (focused == Some(flat_lines(lists@)[k].0 as i64))
            },
{
    let ghost all = flat_lines(lists@);
    let mut lines: Vec<ListLine> = Vec::new();
    let mut y: i64 = 0;
    let mut done = false;
    let mut si: usize = 0;
    while si < lists.len()
        invariant_except_break
            y == flat_lines(lists@.subrange(0, si as int)).len(),
            y == 0 || y < height,
            !done,
        invariant
            0 <= si <= lists@.len(),
            lists@.len() <= i64::MAX,
            all == flat_lines(lists@),
            lines@.len() == y,
            0 <= y <= all.len(),
            forall|k: int|
                0 <= k < lines@.len() ==> {
                    let line = #[trigger] lines@[k];
                    &&& line.y == k
                    &&& line.item == all[k].0
                    &&& line.text@ == all[k].1
                    &&& line.focused == (focused == Some(all[k].0 as i64))
                },
        ensures
            done ==> y == shown_rows(all.len() as int, height as int),
            !done ==> y == flat_lines(lists@.subrange(0, lists@.len() as int)).len() && (y == 0 || y < height),
        decreases lists@.len() - si,
    {
        let ghost before = flat_lines(lists@.subrange(0, si as int));
        assert(lists@.subrange(0, si + 1).drop_last() =~= lists@.subrange(0, si as int));
        assert(flat_lines(lists@.subrange(0, si + 1)) == before + item_rows(lists@, si as int));
        proof {
            lemma_flat_prefix(lists@, si + 1);
        }
        let strings = &lists[si];
        let mut j: usize = 0;
        while j < strings.len()
            invariant_except_break
                y == before.len() + j,
                y == 0 || y < height,
                !done,
            invariant
                0 <= j <= strings@.len(),
                0 <= si < lists@.len(),
                lists@.len() <= i64::MAX,
                strings@ == lists@[si as int]@,
                all == flat_lines(lists@),
                before == flat_lines(lists@.subrange(0, si as int)),
                flat_lines(lists@.subrange(0, si + 1)) == before + item_rows(lists@, si as int),
                flat_lines(lists@.subrange(0, si + 1)).len() <= all.len(),
                forall|k: int| 0 <= k < flat_lines(lists@.subrange(0, si + 1)).len()
                    ==> #[trigger] flat_lines(lists@.subrange(0, si + 1))[k] == all[k],
                lines@.len() == y,
                0 <= y <= all.len(),
                forall|k: int|
                    0 <= k < lines@.len() ==> {
                        let line = #[trigger] lines@[k];
                        &&& line.y == k
                        &&& line.item == all[k].0
                        &&& line.text@ == all[k].1
                        &&& line.focused == (focused == Some(all[k].0 as i64))
                    },
            ensures
                done ==> y == shown_rows(all.len() as int, height as int),
                !done ==> y == before.len() + strings@.len() && (y == 0 || y < height),
            decreases strings@.len() - j,
        {
            let ghost k = y as int;
            assert(flat_lines(lists@.subrange(0, si + 1))[k] == all[k]);
            assert((before + item_rows(lists@, si as int))[k] == item_rows(lists@, si as int)[j as int]);
            let line = ListLine {
                y,
                item: si,
                text: strings[j].clone(),
                focused: focused == Some(si as i64),
            };
            lines.push(line);
            y = y + 1;
            if y >= height {
                done = true;
                break;
            }
            j = j + 1;
        }
        if done {
            break;
        }
        si = si + 1;
    }
    if !done {
        assert(lists@.subrange(0, lists@.len() as int) =~= lists@);
    }
    lines
}

/// The lines of a text split at its newlines, each cut after `width` bytes.
pub open spec fn item_lines(text: Seq<char>, width: int) -> Seq<Seq<u8>> {
    let lines = byte_lines(encode_utf8(text));
    Seq::new(lines.len(), |j: int| line_cut(lines[j], width))
}

/// How many lines each string of a list control has.
pub open spec fn item_line_counts(strings: Seq<String>, width: int) -> Seq<usize> {
    Seq::new(strings.len(), |i: int| item_lines(strings[i]@, width).len() as usize)
}

/// The lines of all strings one after the other, each with the index of
/// its string.
pub open spec fn flat_item_lines(strings: Seq<String>, width: int) -> Seq<(int, Seq<u8>)>
    decreases strings.len(),
{
    if strings.len() == 0 {
        Seq::empty()
    } else {
        let last = item_lines(strings.last()@, width);
        flat_item_lines(strings.drop_last(), width) + Seq::new(last.len(), |j: int| ((strings.len() - 1) as int, last[j]))
    }
}

/// Whether the events hold a press of the first mouse button.
pub open spec fn first_button_pressed(events: Seq<InputEvent>) -> bool {
    exists|i: int| 0 <= i < events.len() && events[i] == (InputEvent::MousePress { button_mask: 1 })
}

/// Whether a list control's strings can be split and cut: the width is not
/// negative when there is something to cut, no cut splits a character, and
/// the lines can be counted.
pub open spec fn list_fits(strings: Seq<String>, width: int) -> bool {
    &&& strings.len() > 0 ==> width >= 0
    &&& forall|i: int| 0 <= i < strings.len() ==> cuts_fall_on_boundaries(encode_utf8(#[trigger] strings[i]@), width)
    &&& count_sum(item_line_counts(strings, width)) <= usize::MAX
    &&& strings.len() <= i64::MAX
}

/// The selection after a frame: its range becomes `-1..strings`; a press of
/// the first button inside the control selects the hovered item, or nothing
/// (`-1`) when no item is hovered.
pub open spec fn list_range_after(
    range: IntRangeComponent,
    count: int,
    hovered: Option<int>,
    clicked: bool,
) -> (int, int, int) {
    let index = if clicked {
        clamp_index(
            match hovered {
                Some(i) => i,
                None => -1,
            },
            -1,
            count,
        )
    } else {
        range.index() as int
    };
    (index, -1, count)
}

/// A click inside a list control selects the hovered item, or nothing
/// (`-1`) when the mouse is below the last item; the range then spans the
/// items and the unselected index.
pub proof fn lemma_click_selects_hovered(range: IntRangeComponent, count: int, hovered: Option<int>)
    requires
        count >= 0,
        hovered matches Some(i) ==> 0 <= i < count,
    ensures
        list_range_after(range, count, hovered, true) == (
            match hovered {
                Some(i) => i,
                None => -1,
            },
            -1,
            count,
        ),
{
}

/// What a list control shows in one frame.
#[derive(Debug, Clone)]
pub struct ListFrame {
    /// How many string entities the lines need.
    pub line_count: usize,
    /// The rows shown.
    pub lines: Vec<ListLine>,
    /// The item under the mouse.
    pub hovered_item: Option<usize>,
    /// The selected item, as the selection holds it.
    pub focused_item: Option<i64>,
    /// Where the hover highlight goes, and its size.
    pub hover_position: Vector2I,
    pub hover_size: Vector2I,
    /// Where the selection highlight goes, and its size.
    pub focus_position: Vector2I,
    pub focus_size: Vector2I,
}

/// The two highlights of a list frame: the hover highlight is one row of
/// the control's width at the hovered item, and empty at the top when no
/// item is hovered; the selection highlight is one row of the control's
/// width at the selected index whenever that index is not negative (the
/// first item, 0, included), and empty when nothing is selected.
pub proof fn lemma_frame_highlights(
    strings: Seq<String>,
    width: i64,
    height: i64,
    local_mouse: Option<Vector2I>,
    events: Seq<InputEvent>,
    before: Option<IntRangeComponent>,
    after: Option<IntRangeComponent>,
    frame: ListFrame,
)
    requires
        list_fits(strings, width as int),
        strings.len() <= usize::MAX,
        list_frame_shows(strings, width, height, local_mouse, events, before, after, frame),
    ensures
        after matches Some(range) ==> {
            &&& frame.focused_item == Some(range.index())
            &&& frame.focus_position == Vector2I(0, range.index())
            &&& range.index() >= 0 ==> frame.focus_size == Vector2I(width, 1)
            &&& range.index() < 0 ==> frame.focus_size == Vector2I(0, 0)
        },
        after is None ==> frame.focused_item is None && frame.focus_position == Vector2I(0, 0) && frame.focus_size
            == Vector2I(0, 0),
        frame.hovered_item matches Some(i) ==> {
            &&& frame.hover_position == Vector2I(0, i as i64)
            &&& frame.hover_size == Vector2I(width, 1)
        },
        frame.hovered_item is None ==> frame.hover_position == Vector2I(0, 0) && frame.hover_size == Vector2I(0, 0),
{
    let counts = item_line_counts(strings, width as int);
    assert(counts.len() == strings.len());
    if let Some(Vector2I(_, y)) = local_mouse {
        lemma_first_item_below_bounds(counts, y as int);
    }
    if let Some(h) = hovered_item_spec(counts, local_mouse, width as int, height as int) {
        assert(0 <= h < strings.len() <= i64::MAX);
        assert((h as usize) as int == h);
    }
}

/// The item a list frame hovers is the one under the mouse: the mouse lies
/// inside the control, and its row falls among that item's lines (the
/// items before it take up fewer rows). When the mouse is inside the
/// control but no item is hovered, the mouse lies below all the lines.
pub proof fn lemma_frame_hovers_item_under_mouse(
    strings: Seq<String>,
    width: i64,
    height: i64,
    local_mouse: Option<Vector2I>,
    events: Seq<InputEvent>,
    before: Option<IntRangeComponent>,
    after: Option<IntRangeComponent>,
    frame: ListFrame,
)
    requires
        list_fits(strings, width as int),
        strings.len() <= usize::MAX,
        list_frame_shows(strings, width, height, local_mouse, events, before, after, frame),
    ensures
        frame.hovered_item matches Some(i) ==> {
            &&& local_mouse matches Some(Vector2I(x, y)) && 0 <= x < width && 0 <= y < height
            &&& i < strings.len()
            &&& count_sum(item_line_counts(strings, width as int).take(i as int)) <= (local_mouse->0).1 < count_sum(
                item_line_counts(strings, width as int).take(i + 1),
            )
        },
        (local_mouse matches Some(Vector2I(x, y)) && 0 <= x < width && 0 <= y < height) && frame.hovered_item is None
            ==> count_sum(item_line_counts(strings, width as int)) <= (local_mouse->0).1,
        !(local_mouse matches Some(Vector2I(x, y)) && 0 <= x < width && 0 <= y < height) ==> frame.hovered_item is None,
{
    let counts = item_line_counts(strings, width as int);
    assert(counts.len() == strings.len());
    if let Some(Vector2I(_, y)) = local_mouse {
        lemma_first_item_below_bounds(counts, y as int);
        if y >= 0 {
            lemma_item_below_spans_row(counts, y as int);
        }
        if let Some(h) = hovered_item_spec(counts, local_mouse, width as int, height as int) {
            assert(0 <= h < strings.len());
            assert((h as usize) as int == h);
        }
    }
}

/// What a frame does to a list's selection: its range becomes `-1` to the
/// number of strings; a press of the first mouse button while the mouse is
/// inside the control selects the hovered item, or nothing (`-1`) when no
/// item is hovered; without such a click the selected index stays.
pub proof fn lemma_frame_click_selects(
    strings: Seq<String>,
    width: i64,
    height: i64,
    local_mouse: Option<Vector2I>,
    events: Seq<InputEvent>,
    range: IntRangeComponent,
    after: Option<IntRangeComponent>,
    frame: ListFrame,
)
    requires
        list_fits(strings, width as int),
        strings.len() <= usize::MAX,
        list_frame_shows(strings, width, height, local_mouse, events, Some(range), after, frame),
    ensures
        after matches Some(updated) && {
            &&& updated.start() == -1
            &&& updated.end() == strings.len()
            &&& ((local_mouse matches Some(Vector2I(x, y)) && 0 <= x < width && 0 <= y < height)
                && exists|k: int| 0 <= k < events.len() && events[k] == (InputEvent::MousePress { button_mask: 1 }))
                ==> updated.index() == match frame.hovered_item {
                Some(i) => i as int,
                None => -1,
            }
            &&& !((local_mouse matches Some(Vector2I(x, y)) && 0 <= x < width && 0 <= y < height)
                && exists|k: int| 0 <= k < events.len() && events[k] == (InputEvent::MousePress { button_mask: 1 }))
                ==> updated.index() == range.index()
        },
{
    let counts = item_line_counts(strings, width as int);
    assert(counts.len() == strings.len());
    if let Some(Vector2I(_, y)) = local_mouse {
        lemma_first_item_below_bounds(counts, y as int);
        if let Some(h) = hovered_item_spec(counts, local_mouse, width as int, height as int) {
            assert(0 <= h < strings.len());
            assert((h as usize) as int == h);
        }
    }
}

/// The lines of strings split one by one lead to the lines of all strings.
proof fn lemma_flat_lines_encode(lists: Seq<Vec<String>>, strings: Seq<String>, width: int)
    requires
        lists.len() == strings.len(),
        forall|i: int| 0 <= i < lists.len() ==> (#[trigger] lists[i])@.len() == item_lines(strings[i]@, width).len(),
        forall|i: int, j: int|
            0 <= i < lists.len() && 0 <= j < lists[i]@.len() ==> encode_utf8((#[trigger] lists[i]@[j])@)
                == item_lines(strings[i]@, width)[j],
    ensures
        flat_lines(lists).len() == flat_item_lines(strings, width).len(),
        forall|k: int|
            0 <= k < flat_lines(lists).len() ==> {
                &&& (#[trigger] flat_lines(lists)[k]).0 == flat_item_lines(strings, width)[k].0
                &&& encode_utf8(flat_lines(lists)[k].1) == flat_item_lines(strings, width)[k].1
            },
    decreases lists.len(),
{
    if lists.len() > 0 {
        let n = lists.len() - 1;
        assert forall|i: int, j: int|
            0 <= i < lists.drop_last().len() && 0 <= j < lists.drop_last()[i]@.len() implies encode_utf8(
                (#[trigger] lists.drop_last()[i]@[j])@,
            ) == item_lines(strings.drop_last()[i]@, width)[j] by {
            assert(lists.drop_last()[i] == lists[i]);
            assert(lists[i]@[j] == lists.drop_last()[i]@[j]);
        }
        assert forall|i: int| 0 <= i < lists.drop_last().len() implies (#[trigger] lists.drop_last()[i])@.len()
            == item_lines(strings.drop_last()[i]@, width).len() by {
            assert(lists.drop_last()[i] == lists[i]);
        }
        lemma_flat_lines_encode(lists.drop_last(), strings.drop_last(), width);
        let rest = flat_lines(lists.drop_last());
        let last = item_lines(strings.last()@, width);
        assert(lists[n] == lists.last());
        assert forall|k: int| 0 <= k < flat_lines(lists).len() implies {
            &&& (#[trigger] flat_lines(lists)[k]).0 == flat_item_lines(strings, width)[k].0
            &&& encode_utf8(flat_lines(lists)[k].1) == flat_item_lines(strings, width)[k].1
        } by {
            if k >= rest.len() {
                let j = k - rest.len();
                assert(encode_utf8(lists[n]@[j]@) == item_lines(strings[n]@, width)[j]);
            }
        }
    }
}

/// What a frame of a list control shows, given its strings, its size, the
/// local mouse position and the events, and how it leaves the selection:
/// the number of lines, the hovered item, the selection's range (and index
/// after a click), the two highlights, and the rows.
pub open spec fn list_frame_shows(
    strings: Seq<String>,
    width: i64,
    height: i64,
    local_mouse: Option<Vector2I>,
    events: Seq<InputEvent>,
    before: Option<IntRangeComponent>,
    after: Option<IntRangeComponent>,
    frame: ListFrame,
) -> bool {
    let counts = item_line_counts(strings, width as int);
    let flat = flat_item_lines(strings, width as int);
    let hovered = hovered_item_spec(counts, local_mouse, width as int, height as int);
    let clicked = contains_mouse(local_mouse, width as int, height as int) && first_button_pressed(events);
    &&& frame.line_count == count_sum(counts)
    &&& frame.hovered_item == match hovered {
        Some(i) => Some(i as usize),
        None => None::<usize>,
    }
    &&& match (before, after) {
        (None, None) => true,
        (Some(range), Some(updated)) => (updated.index() as int, updated.start() as int, updated.end() as int)
            == list_range_after(range, strings.len() as int, hovered, clicked),
        _ => false,
    }
    &&& frame.focused_item == match after {
        Some(range) => Some(range.index()),
        None => None::<i64>,
    }
    &&& frame.hover_position == Vector2I(0, match hovered { Some(i) => i as i64, None => 0 })
    &&& frame.hover_size == if hovered is Some { Vector2I(width, 1) } else { Vector2I(0, 0) }
    &&& frame.focus_position == Vector2I(0, match frame.focused_item { Some(i) => i, None => 0 })
    &&& frame.focus_size == match frame.focused_item {
        Some(i) => if i >= 0 { Vector2I(width, 1) } else { Vector2I(0, 0) },
        None => Vector2I(0, 0),
    }
    &&& frame.lines@.len() == shown_rows(flat.len() as int, height as int)
    &&& forall|k: int|
        0 <= k < frame.lines@.len() ==> {
            let line = #[trigger] frame.lines@[k];
            &&& line.y == k
            &&& line.item == flat[k].0
            &&& encode_utf8(line.text@) == flat[k].1
            &&& line.focused == (frame.focused_item == Some(flat[k].0 as i64))
        }
}

/// Computes a frame of a list control: splits the strings into lines cut
/// to the width, finds the item under the mouse, updates the selection
/// (its range follows the strings, a click inside the control selects the
/// hovered item), places the two highlights, and lays out the rows.
pub fn list_frame(
    strings: &Vec<String>,
    width: i64,
    height: i64,
    local_mouse: Option<Vector2I>,
    events: &Vec<InputEvent>,
    selection: &mut Option<IntRangeComponent>,
) -> (frame: ListFrame)
    requires
        list_fits(strings@, width as int),
    ensures
        list_frame_shows(strings@, width, height, local_mouse, events@, *old(selection), *final(selection), frame),
{
    let ghost w = width as int;
    let mut lists: Vec<Vec<String>> = Vec::new();
    let mut counts: Vec<usize> = Vec::new();
    let mut i: usize = 0;
    while i < strings.len()
        invariant
            0 <= i <= strings@.len(),
            w == width,
            list_fits(strings@, w),
            lists@.len() == i,
            counts@.len() == i,
            forall|m: int| 0 <= m < i ==> (#[trigger] lists@[m])@.len() == item_lines(strings@[m]@, w).len(),
            forall|m: int| 0 <= m < i ==> #[trigger] counts@[m] == lists@[m]@.len(),
            forall|m: int, j: int|
                0 <= m < i && 0 <= j < lists@[m]@.len() ==> encode_utf8((#[trigger] lists@[m]@[j])@)
                    == item_lines(strings@[m]@, w)[j],
        decreases strings@.len() - i,
    {
        let text = strings[i].as_str();
        assert(cuts_fall_on_boundaries(encode_utf8(strings@[i as int]@), w));
        let lines = split_lines(text, width);
        counts.push(lines.len());
        lists.push(lines);
        i = i + 1;
    }
    assert(counts@ =~= item_line_counts(strings@, w));
    proof {
        lemma_flat_lines_encode(lists@, strings@, w);
        lemma_flat_len_is_count_sum(lists@, counts@);
    }
    let mut line_count: usize = 0;
    let mut k: usize = 0;
    while k < counts.len()
        invariant
            0 <= k <= counts@.len(),
            count_sum(counts@) <= usize::MAX,
            line_count == count_sum(counts@.subrange(0, k as int)),
        decreases counts@.len() - k,
    {
        assert(counts@.subrange(0, k + 1).drop_last() =~= counts@.subrange(0, k as int));
        proof {
            lemma_count_sum_prefix_bound(counts@, k + 1);
        }
        line_count = line_count + counts[k];
        k = k + 1;
    }
    assert(counts@.subrange(0, counts@.len() as int) =~= counts@);
    let hovered = hovered_item(&counts, local_mouse, width, height);
    let count = strings.len() as i64;
    match selection {
        Some(range) => range.set_range(-1, count),
        None => {},
    }
    let inside = match local_mouse {
        Some(Vector2I(x, y)) => 0 <= x && x < width && 0 <= y && y < height,
        None => false,
    };
    let target: i64 = match hovered {
        Some(h) => h as i64,
        None => -1,
    };
    if inside {
        let ghost set = *selection;
        let mut e: usize = 0;
        let mut seen = false;
        while e < events.len()
            invariant
                0 <= e <= events@.len(),
                count >= 0,
                seen == exists|m: int| 0 <= m < e && events@[m] == (InputEvent::MousePress { button_mask: 1 }),
                set is None <==> *selection is None,
                set matches Some(r) ==> {
                    &&& selection->0.start() == -1
                    &&& selection->0.end() == count
                    &&& r.start() == -1
                    &&& r.end() == count
                    &&& selection->0.index() == if seen { clamp_index(target as int, -1, count as int) } else { r.index() as int }
                },
            decreases events@.len() - e,
        {
            if events[e] == (InputEvent::MousePress { button_mask: 1 }) {
                match selection {
                    Some(range) => {
                        range.set_range(-1, count);
                        range.set_index(target);
                    },
                    None => {},
                }
                seen = true;
            }
            e = e + 1;
        }
        assert(seen == first_button_pressed(events@));
    }
    proof {
        let hovered_s = hovered_item_spec(item_line_counts(strings@, w), local_mouse, w, height as int);
        assert(target as int == match hovered_s { Some(i) => i, None => -1int });
    }

    let focused: Option<i64> = match selection {
        Some(range) => Some(range.get_index()),
        None => None,
    };
    let hover_position = Vector2I(0, target_or_zero(hovered));
    let hover_size = if hovered.is_some() { Vector2I(width, 1) } else { Vector2I(0, 0) };
    let focus_position = Vector2I(0, match focused { Some(f) => f, None => 0 });
    let focus_size = match focused {
        Some(f) => if f >= 0 { Vector2I(width, 1) } else { Vector2I(0, 0) },
        None => Vector2I(0, 0),
    };
    let lines = list_lines(&lists, height, focused);
    ListFrame {
        line_count,
        lines,
        hovered_item: hovered,
        focused_item: focused,
        hover_position,
        hover_size,
        focus_position,
        focus_size,
    }
}

/// The row of the hovered item, or 0 when none is hovered.
fn target_or_zero(hovered: Option<usize>) -> (row: i64)
    requires
        hovered matches Some(h) ==> h <= i64::MAX,
    ensures
        row == match hovered {
            Some(h) => h as i64,
            None => 0,
        },
{
    match hovered {
        Some(h) => h as i64,
        None => 0,
    }
}

/// The lines of all items number as many as the items' line counts sum to.
proof fn lemma_flat_len_is_count_sum(lists: Seq<Vec<String>>, counts: Seq<usize>)
    requires
        lists.len() == counts.len(),
        forall|m: int| 0 <= m < lists.len() ==> #[trigger] counts[m] == lists[m]@.len(),
    ensures
        flat_lines(lists).len() == count_sum(counts),
    decreases lists.len(),
{
    if lists.len() > 0 {
        assert forall|m: int| 0 <= m < lists.drop_last().len() implies #[trigger] counts.drop_last()[m]
            == lists.drop_last()[m]@.len() by {
            assert(counts.drop_last()[m] == counts[m]);
        }
        lemma_flat_len_is_count_sum(lists.drop_last(), counts.drop_last());
        assert(counts.last() == counts[counts.len() - 1]);
    }
}

/// How many lines a list control's strings make: the sum, over the
/// strings, of the number of pieces between their newlines.
pub fn list_line_count(strings: &Vec<String>, width: i64) -> (count: usize)
    requires
        list_fits(strings@, width as int),
    ensures
        count == count_sum(item_line_counts(strings@, width as int)),
{
    let ghost counts = item_line_counts(strings@, width as int);
    let mut total: usize = 0;
    let mut i: usize = 0;
    while i < strings.len()
        invariant
            0 <= i <= strings@.len(),
            list_fits(strings@, width as int),
            counts == item_line_counts(strings@, width as int),
            total == count_sum(counts.subrange(0, i as int)),
        decreases strings@.len() - i,
    {
        assert(cuts_fall_on_boundaries(encode_utf8(strings@[i as int]@), width as int));
        let text = strings[i].as_str();
        let lines = split_lines(text, width);
        let n = lines.len();
        assert(n == item_lines(strings@[i as int]@, width as int).len());
        assert(item_line_counts(strings@, width as int)[i as int] == n);
        assert(counts.subrange(0, i + 1).drop_last() =~= counts.subrange(0, i as int));
        proof {
            lemma_count_sum_prefix_bound(counts, i + 1);
        }
        total = total + n;
        i = i + 1;
    }
    assert(counts.subrange(0, counts.len() as int) =~= counts);
    total
}

/// The entities a list control's rows are shown with after reconciling:
/// the kept entities, then the new ones, as many as there are lines.
pub open spec fn reconciled_entities(old_entities: Seq<u64>, count: int, created: Seq<u64>) -> Seq<u64> {
    if old_entities.len() < count {
        old_entities + created
    } else {
        old_entities.subrange(0, count)
    }
}

/// The entities given up when a list control has fewer lines than
/// entities: the surplus, last first.
pub open spec fn surplus_entities(old_entities: Seq<u64>, count: int) -> Seq<u64> {
    if old_entities.len() <= count {
        Seq::empty()
    } else {
        old_entities.subrange(count, old_entities.len() as int).reverse()
    }
}

/// Reconciling settles: afterwards a list control has exactly as many row
/// entities as lines, so reconciling again with nothing new keeps them all
/// and gives nothing up.
pub proof fn lemma_reconcile_settles(old_entities: Seq<u64>, count: nat, created: Seq<u64>)
    requires
        created.len() == if old_entities.len() < count { count - old_entities.len() } else { 0 },
    ensures
        reconciled_entities(old_entities, count as int, created).len() == count,
        reconciled_entities(reconciled_entities(old_entities, count as int, created), count as int, Seq::empty())
            == reconciled_entities(old_entities, count as int, created),
        surplus_entities(reconciled_entities(old_entities, count as int, created), count as int) == Seq::<
            u64,
        >::empty(),
{
    let r = reconciled_entities(old_entities, count as int, created);
    assert(r.subrange(0, count as int) =~= r);
}

/// The row entities that a list control had, or none.
pub open spec fn rows_of(entities: Map<u64, Seq<u64>>, control: u64) -> Seq<u64> {
    if entities.contains_key(control) {
        entities[control]
    } else {
        Seq::empty()
    }
}

/// How many row entities must be created for `count` lines.
pub open spec fn rows_missing(have: Seq<u64>, count: int) -> int {
    if have.len() < count {
        count - have.len()
    } else {
        0
    }
}

/// After a frame a list control has one row entity per line of its
/// strings, whatever it had before: the kept entities and the created ones
/// number exactly the sum of the strings' line counts.
pub proof fn lemma_rows_follow_lines(old_entities: Seq<u64>, strings: Seq<String>, width: int, created: Seq<u64>)
    requires
        created.len() == rows_missing(old_entities, count_sum(item_line_counts(strings, width))),
    ensures
        reconciled_entities(old_entities, count_sum(item_line_counts(strings, width)), created).len() == count_sum(
            item_line_counts(strings, width),
        ),
        surplus_entities(
            reconciled_entities(old_entities, count_sum(item_line_counts(strings, width)), created),
            count_sum(item_line_counts(strings, width)),
        ) == Seq::<u64>::empty(),
{
    lemma_count_sum_nonneg(item_line_counts(strings, width));
    lemma_reconcile_settles(old_entities, count_sum(item_line_counts(strings, width)) as nat, created);
}

/// A sum of counts is not negative.
proof fn lemma_count_sum_nonneg(counts: Seq<usize>)
    ensures
        count_sum(counts) >= 0,
    decreases counts.len(),
{
    if counts.len() > 0 {
        lemma_count_sum_nonneg(counts.drop_last());
    }
}

/// Keeps, for each list control, the entities that highlight its hovered
/// and its selected item and the entities that show its rows.
#[derive(Debug, Clone)]
pub struct ListSystem {
    list_focus_entities: HashMap<u64, u64>,
    list_hover_entities: HashMap<u64, u64>,
    list_string_entities: HashMap<u64, Vec<u64>>,
}

impl ListSystem {
    /// The selection highlight of each list control.
    pub closed spec fn focus_entities(&self) -> Map<u64, u64> {
        self.list_focus_entities@
    }

    /// The hover highlight of each list control.
    pub closed spec fn hover_entities(&self) -> Map<u64, u64> {
        self.list_hover_entities@
    }

    /// The row entities of each list control, in row order.
    pub closed spec fn string_entities(&self) -> Map<u64, Seq<u64>> {
        self.list_string_entities@.map_values(|entities: Vec<u64>| entities@)
    }

    /// With no list controls known.
    pub fn new() -> (system: Self)
        ensures
            system.focus_entities() == Map::<u64, u64>::empty(),
            system.hover_entities() == Map::<u64, u64>::empty(),
            system.string_entities() == Map::<u64, Seq<u64>>::empty(),
    {
        let system = ListSystem {
            list_focus_entities: HashMap::new(),
            list_hover_entities: HashMap::new(),
            list_string_entities: HashMap::new(),
        };
        assert(system.string_entities() =~= Map::<u64, Seq<u64>>::empty());
        system
    }

    /// The hover highlight of a list control, if it has one yet.
    pub fn hover_entity(&self, control: u64) -> (entity: Option<u64>)
        ensures
            entity == if self.hover_entities().contains_key(control) {
                Some(self.hover_entities()[control])
            } else {
                None::<u64>
            },
    {
        broadcast use vstd::std_specs::hash::group_hash_axioms;
        match self.list_hover_entities.get(&control) {
            Some(entity) => Some(*entity),
            None => None,
        }
    }

    /// Records the hover highlight of a list control.
    pub fn set_hover_entity(&mut self, control: u64, entity: u64)
        ensures
            final(self).hover_entities() == old(self).hover_entities().insert(control, entity),
            final(self).focus_entities() == old(self).focus_entities(),
            final(self).string_entities() == old(self).string_entities(),
    {
        broadcast use vstd::std_specs::hash::group_hash_axioms;
        self.list_hover_entities.insert(control, entity);
    }

    /// The selection highlight of a list control, if it has one yet.
    pub fn focus_entity(&self, control: u64) -> (entity: Option<u64>)
        ensures
            entity == if self.focus_entities().contains_key(control) {
                Some(self.focus_entities()[control])
            } else {
                None::<u64>
            },
    {
        broadcast use vstd::std_specs::hash::group_hash_axioms;
        match self.list_focus_entities.get(&control) {
            Some(entity) => Some(*entity),
            None => None,
        }
    }

    /// Records the selection highlight of a list control.
    pub fn set_focus_entity(&mut self, control: u64, entity: u64)
        ensures
            final(self).focus_entities() == old(self).focus_entities().insert(control, entity),
            final(self).hover_entities() == old(self).hover_entities(),
            final(self).string_entities() == old(self).string_entities(),
    {
        broadcast use vstd::std_specs::hash::group_hash_axioms;
        self.list_focus_entities.insert(control, entity);
    }

    /// The row entities of a list control, in row order (none when it has
    /// none yet).
    pub fn row_entities(&self, control: u64) -> (entities: Vec<u64>)
        ensures
            entities@ == if self.string_entities().contains_key(control) {
                self.string_entities()[control]
            } else {
                Seq::<u64>::empty()
            },
    {
        broadcast use vstd::std_specs::hash::group_hash_axioms;
        match self.list_string_entities.get(&control) {
            Some(entities) => entities.clone(),
            None => Vec::new(),
        }
    }

    /// How many row entities a list control with `count` lines still needs.
    pub fn missing_row_entities(&self, control: u64, count: usize) -> (missing: usize)
        ensures
            ({
                let have = if self.string_entities().contains_key(control) {
                    self.string_entities()[control].len() as int
                } else {
                    0
                };
                missing == if have < count { count - have } else { 0 }
            }),
    {
        broadcast use vstd::std_specs::hash::group_hash_axioms;
        let have = match self.list_string_entities.get(&control) {
            Some(entities) => entities.len(),
            None => 0,
        };
        if have < count {
            count - have
        } else {
            0
        }
    }

    /// Gives a list control exactly `count` row entities: the entities it
    /// had, followed by the `created` ones when it had too few; when it had
    /// too many, the surplus is dropped and handed back, last first, to be
    /// destroyed.
    pub fn reconcile_row_entities(&mut self, control: u64, count: usize, created: Vec<u64>) -> (destroyed: Vec<u64>)
        requires
            ({
                let have = if old(self).string_entities().contains_key(control) {
                    old(self).string_entities()[control].len() as int
                } else {
                    0
                };
                created@.len() == if have < count { count - have } else { 0 }
            }),
        ensures
            ({
                let old_entities = if old(self).string_entities().contains_key(control) {
                    old(self).string_entities()[control]
                } else {
                    Seq::<u64>::empty()
                };
                &&& final(self).string_entities() == old(self).string_entities().insert(
                    control,
                    reconciled_entities(old_entities, count as int, created@),
                )
                &&& destroyed@ == surplus_entities(old_entities, count as int)
            }),
            final(self).focus_entities() == old(self).focus_entities(),
            final(self).hover_entities() == old(self).hover_entities(),
    {
        broadcast use vstd::std_specs::hash::group_hash_axioms;
        let ghost old_entities = if self.string_entities().contains_key(control) {
            self.string_entities()[control]
        } else {
            Seq::<u64>::empty()
        };
        let mut entities = match self.list_string_entities.remove(&control) {
            Some(entities) => entities,
            None => Vec::new(),
        };
        assert(entities@ == old_entities);
        let mut i: usize = 0;
        while entities.len() < count
            invariant
                entities@ == old_entities + created@.subrange(0, i as int),
                old_entities.len() < count ==> old_entities.len() + created@.len() == count,
                old_entities.len() >= count ==> created@.len() == 0,
                i <= created@.len(),
                entities@.len() < count ==> i < created@.len(),
            decreases count - entities@.len(),
        {
            entities.push(created[i]);
            i = i + 1;
        }
        let mut destroyed: Vec<u64> = Vec::new();
        while entities.len() > count
            invariant
                old_entities.len() > count ==> entities@ == old_entities.subrange(0, entities@.len() as int),
                old_entities.len() > count ==> destroyed@ == old_entities.subrange(
                    entities@.len() as int,
                    old_entities.len() as int,
                ).reverse(),
                old_entities.len() > count ==> count <= entities@.len() <= old_entities.len(),
                i <= created@.len(),
                old_entities.len() <= count ==> entities@ == old_entities + created@.subrange(0, i as int),
                old_entities.len() <= count ==> destroyed@.len() == 0,
                old_entities.len() <= count ==> entities@.len() == count,
            decreases entities@.len(),
        {
            let ghost before = entities@;
            let entity = entities.pop().unwrap();
            destroyed.push(entity);
            proof {
                if old_entities.len() > count {
                    assert(entity == before.last());
                    assert(entities@.len() == before.len() - 1);
                    assert(before[before.len() - 1] == old_entities[before.len() - 1]);
                    assert(entity == old_entities[entities@.len() as int]);
                    assert(old_entities.subrange(entities@.len() as int, old_entities.len() as int) =~= seq![entity]
                        + old_entities.subrange(before.len() as int, old_entities.len() as int));
                    assert(entities@ =~= old_entities.subrange(0, entities@.len() as int));
                }
            }
        }
        let ghost kept = entities@;
        self.list_string_entities.insert(control, entities);
        proof {
            if old_entities.len() < count {
                assert(created@.subrange(0, i as int) =~= created@);
            } else if old_entities.len() == count {
                assert(old_entities.subrange(0, count as int) =~= old_entities);
                assert(created@.subrange(0, i as int) =~= Seq::<u64>::empty());
                assert(old_entities + Seq::<u64>::empty() =~= old_entities);
            }
            assert(kept == reconciled_entities(old_entities, count as int, created@));
            assert(self.string_entities() =~= old(self).string_entities().insert(control, kept));
        }
        destroyed
    }

    /// Whether a list control still needs its hover highlight created.
    pub fn needs_hover_entity(&self, control: u64) -> (needed: bool)
        ensures
            needed == !self.hover_entities().contains_key(control),
    {
        broadcast use vstd::std_specs::hash::group_hash_axioms;
        !self.list_hover_entities.contains_key(&control)
    }

    /// Whether a list control still needs its selection highlight created.
    pub fn needs_focus_entity(&self, control: u64) -> (needed: bool)
        ensures
            needed == !self.focus_entities().contains_key(control),
    {
        broadcast use vstd::std_specs::hash::group_hash_axioms;
        !self.list_focus_entities.contains_key(&control)
    }

    /// One frame of one list control: computes what it shows (see
    /// `list_frame`) and gives it one row entity per line, taking the
    /// `created` entities when it had too few and handing back, last first,
    /// those to destroy when it had too many.
    pub fn update_control(
        &mut self,
        control: u64,
        strings: &Vec<String>,
        width: i64,
        height: i64,
        local_mouse: Option<Vector2I>,
        events: &Vec<InputEvent>,
        selection: &mut Option<IntRangeComponent>,
        created: Vec<u64>,
    ) -> (result: (ListFrame, Vec<u64>))
        requires
            list_fits(strings@, width as int),
            created@.len() == rows_missing(
                rows_of(old(self).string_entities(), control),
                count_sum(item_line_counts(strings@, width as int)),
            ),
        ensures
            list_frame_shows(strings@, width, height, local_mouse, events@, *old(selection), *final(selection), result.0),
            final(self).string_entities() == old(self).string_entities().insert(
                control,
                reconciled_entities(
                    rows_of(old(self).string_entities(), control),
                    count_sum(item_line_counts(strings@, width as int)),
                    created@,
                ),
            ),
            final(self).string_entities()[control].len() == count_sum(item_line_counts(strings@, width as int)),
            result.1@ == surplus_entities(
                rows_of(old(self).string_entities(), control),
                count_sum(item_line_counts(strings@, width as int)),
            ),
            final(self).focus_entities() == old(self).focus_entities(),
            final(self).hover_entities() == old(self).hover_entities(),
    {
        let frame = list_frame(strings, width, height, local_mouse, events, selection);
        let ghost old_rows = rows_of(self.string_entities(), control);
        let destroyed = self.reconcile_row_entities(control, frame.line_count, created);
        proof {
            lemma_rows_follow_lines(old_rows, strings@, width as int, created@);
        }
        (frame, destroyed)
    }

    /// Forgets the row entities of a list control whose strings are gone.
    pub fn forget_rows(&mut self, control: u64)
        ensures
            final(self).string_entities() == old(self).string_entities().remove(control),
            final(self).focus_entities() == old(self).focus_entities(),
            final(self).hover_entities() == old(self).hover_entities(),
    {
        broadcast use vstd::std_specs::hash::group_hash_axioms;
        self.list_string_entities.remove(&control);
        assert(self.string_entities() =~= old(self).string_entities().remove(control));
    }
}

} // verus!
