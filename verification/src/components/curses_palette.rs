//! The arrangement of a 256-color palette onto the curses color indices:
//! the palette colors closest to the eight built-in curses colors keep the
//! built-in indices 0..8, and all other palette colors follow in order.

use vstd::prelude::*;
use vstd::set_lib::{lemma_int_range, set_int_range};

verus! {

/// The number of colors of a palette and of curses color indices in use.
pub open spec fn color_count() -> int {
    256
}

/// Eight palette indices below 256, no two equal: the palette entries for
/// black, red, green, yellow, blue, magenta, cyan and white.
pub open spec fn anchors_valid(anchors: Seq<usize>) -> bool {
    &&& anchors.len() == 8
    &&& forall|k: int| 0 <= k < 8 ==> #[trigger] anchors[k] < 256
    &&& forall|k: int, l: int| 0 <= k < l < 8 ==> anchors[k] != anchors[l]
}

/// `indices` lists the palette indices in curses order: first the eight
/// anchors, then every other palette index in increasing order.
pub open spec fn is_palette_order(anchors: Seq<usize>, indices: Seq<usize>) -> bool {
    &&& indices.len() == 256
    &&& forall|k: int| 0 <= k < 8 ==> #[trigger] indices[k] == anchors[k]
    &&& forall|k: int, l: int| 8 <= k < l < 256 ==> indices[k] < indices[l]
    &&& forall|k: int| 8 <= k < 256 ==> !anchors.contains(#[trigger] indices[k])
    &&& forall|p: usize| p < 256 ==> #[trigger] indices.contains(p)
}

/// `lut` sends each palette index to its position in `indices`.
pub open spec fn lut_inverts(indices: Seq<usize>, lut: Seq<usize>) -> bool {
    &&& lut.len() == 256
    &&& forall|k: int| 0 <= k < indices.len() ==> #[trigger] lut[indices[k] as int] == k
}

/// Setting a palette keeps the eight built-in curses colors in place: the
/// palette entry chosen for black, red, green, yellow, blue, magenta, cyan
/// and white is shown by curses color 0, 1, ..., 7 respectively.
pub proof fn lemma_anchors_keep_builtin_indices(palette: &CursesPalette, anchors: Seq<usize>, k: int)
    requires
        anchors_valid(anchors),
        is_palette_order(anchors, palette.indices()),
        lut_inverts(palette.indices(), palette.lut()),
        0 <= k < 8,
    ensures
        palette.lut()[anchors[k] as int] == k,
{
    assert(palette.indices()[k] == anchors[k]);
}

/// The curses view of a palette: which palette color each curses color
/// index shows, and the reverse lookup table.
#[derive(Debug, Clone)]
pub struct CursesPalette {
    indices: Vec<usize>,
    lut: Vec<usize>,
}

fn anchors_contain(anchors: &[usize; 8], p: usize) -> (found: bool)
    ensures
        found == anchors@.contains(p),
{
    let mut k: usize = 0;
    while k < 8
        invariant
            0 <= k <= 8,
            forall|m: int| 0 <= m < k ==> anchors@[m] != p,
        decreases 8 - k,
    {
        if anchors[k] == p {
            return true;
        }
        k = k + 1;
    }
    false
}

impl CursesPalette {
    /// The palette index shown by each curses color index, once a palette is
    /// set; empty before.
    pub closed spec fn indices(&self) -> Seq<usize> {
        self.indices@
    }

    /// The curses color index of each palette index.
    pub closed spec fn lut(&self) -> Seq<usize> {
        self.lut@
    }

    /// A palette has been set.
    pub closed spec fn has_palette(&self) -> bool {
        self.indices@.len() == 256
    }

    /// The palette state is consistent.
    pub closed spec fn wf(&self) -> bool {
        &&& self.lut@.len() == 256
        &&& (self.indices@.len() == 256 || self.indices@.len() == 0)
        &&& self.indices@.len() == 256 ==> lut_inverts(self.indices@, self.lut@)
        &&& forall|k: int| 0 <= k < self.indices@.len() ==> #[trigger] self.indices@[k] < 256
    }

    /// Arranges the palette whose entries for black, red, green, yellow,
    /// blue, magenta, cyan and white are `anchors` (in this order) onto the
    /// curses color indices: the anchors take indices 0..8, the other
    /// palette entries follow in increasing order. Panics (so is not
    /// callable) when an anchor is out of range or two anchors coincide.
    pub fn set_palette(&mut self, anchors: [usize; 8])
        requires
            anchors_valid(anchors@),
        ensures
            final(self).wf(),
            final(self).has_palette(),
            is_palette_order(anchors@, final(self).indices()),
            lut_inverts(final(self).indices(), final(self).lut()),
    {
        let mut indices: Vec<usize> = Vec::new();
        let mut k: usize = 0;
        while k < 8
            invariant
                0 <= k <= 8,
                indices@ == anchors@.subrange(0, k as int),
            decreases 8 - k,
        {
            indices.push(anchors[k]);
            k = k + 1;
        }
        let mut p: usize = 0;
        while p < 256
            invariant
                0 <= p <= 256,
                anchors_valid(anchors@),
                indices@.len() >= 8,
                indices@.subrange(0, 8) == anchors@,
                forall|m: int| 8 <= m < indices@.len() ==> #[trigger] indices@[m] < p,
                forall|m: int, l: int| 8 <= m < l < indices@.len() ==> indices@[m] < indices@[l],
                forall|m: int| 8 <= m < indices@.len() ==> !anchors@.contains(#[trigger] indices@[m]),
                forall|q: usize| q < p ==> #[trigger] indices@.contains(q),
            decreases 256 - p,
        {
            let ghost old_indices = indices@;
            if !anchors_contain(&anchors, p) {
                indices.push(p);
                assert forall|q: usize| q < p + 1 implies #[trigger] indices@.contains(q) by {
                    if q == p {
                        assert(indices@[indices@.len() - 1] == p);
                    } else {
                        assert(old_indices.contains(q));
                        let m = choose|m: int| 0 <= m < old_indices.len() && old_indices[m] == q;
                        assert(indices@[m] == q);
                    }
                }
            } else {
                assert forall|q: usize| q < p + 1 implies #[trigger] indices@.contains(q) by {
                    if q == p {
                        let m = choose|m: int| 0 <= m < anchors@.len() && anchors@[m] == p;
                        assert(indices@.subrange(0, 8)[m] == p);
                        assert(indices@[m] == p);
                    }
                }
            }
            assert(indices@.subrange(0, 8) =~= old_indices.subrange(0, 8));
            p = p + 1;
        }
        proof {
            self.lemma_order_length(anchors@, indices@);
        }
        let mut lut: Vec<usize> = Vec::new();
        let mut i: usize = 0;
        while i < 256
            invariant
                0 <= i <= 256,
                lut@.len() == i,
                forall|m: int| 0 <= m < i ==> lut@[m] == 0,
            decreases 256 - i,
        {
            lut.push(0);
            i = i + 1;
        }
        let mut k: usize = 0;
        while k < 256
            invariant
                0 <= k <= 256,
                indices@.len() == 256,
                lut@.len() == 256,
                forall|m: int| 0 <= m < 256 ==> #[trigger] indices@[m] < 256,
                forall|m: int, l: int| 0 <= m < l < 256 ==> indices@[m] != indices@[l],
                forall|m: int| 0 <= m < k ==> #[trigger] lut@[indices@[m] as int] == m,
            decreases 256 - k,
        {
            let ghost before = lut@;
            lut.set(indices[k], k);
            assert forall|m: int| 0 <= m < k + 1 implies #[trigger] lut@[indices@[m] as int] == m by {
                if m < k {
                    assert(indices@[m] != indices@[k as int]);
                    assert(before[indices@[m] as int] == m);
                }
            }
            k = k + 1;
        }
        self.indices = indices;
        self.lut = lut;
    }

    /// The curses color index that stands for the given palette index (the
    /// lookup that follows finding a color's nearest palette entry).
    /// Panics (so is not callable) without a palette or out of range.
    pub fn get_color_idx(&self, palette_index: usize) -> (index: usize)
        requires
            self.wf(),
            self.has_palette(),
            palette_index < 256,
        ensures
            index == self.lut()[palette_index as int],
            index < 256,
            self.indices()[index as int] == palette_index,
    {
        proof {
            self.lemma_lut_round_trip(palette_index);
        }
        self.lut[palette_index]
    }

    /// The palette index that the given curses color index shows.
    /// Panics (so is not callable) without a palette or out of range.
    pub fn get_palette_index(&self, index: usize) -> (palette_index: usize)
        requires
            self.wf(),
            self.has_palette(),
            index < 256,
        ensures
            palette_index == self.indices()[index as int],
            palette_index < 256,
    {
        self.indices[index]
    }

    /// With a palette set, the lookup table and the order are inverse to
    /// each other: palette index `p` is shown by curses color `lut[p]`.
    pub proof fn lemma_lut_round_trip(&self, palette_index: usize)
        requires
            self.wf(),
            self.has_palette(),
            palette_index < 256,
        ensures
            self.lut()[palette_index as int] < 256,
            self.indices()[self.lut()[palette_index as int] as int] == palette_index,
    {
        let indices = self.indices@;
        assert forall|m: int, l: int| 0 <= m < l < 256 implies indices[m] != indices[l] by {
            assert(self.lut@[indices[m] as int] == m);
            assert(self.lut@[indices[l] as int] == l);
        }
        let s = indices.map_values(|x: usize| x as int);
        assert(s.no_duplicates()) by {
            assert forall|m: int, l: int| 0 <= m < s.len() && 0 <= l < s.len() && m != l implies s[m]
                != s[l] by {
                if m < l {
                    assert(indices[m] != indices[l]);
                } else {
                    assert(indices[l] != indices[m]);
                }
            }
        }
        s.unique_seq_to_set();
        lemma_int_range(0, 256);
        assert(s.to_set().subset_of(set_int_range(0, 256))) by {
            assert forall|x: int| s.to_set().contains(x) implies set_int_range(0, 256).contains(x) by {
                let m = choose|m: int| 0 <= m < s.len() && s[m] == x;
                assert(indices[m] < 256);
            }
        }
        vstd::set_lib::lemma_subset_equality(s.to_set(), set_int_range(0, 256));
        assert(set_int_range(0, 256).contains(palette_index as int));
        assert(s.to_set().contains(palette_index as int));
        let m = choose|m: int| 0 <= m < s.len() && s[m] == palette_index as int;
        assert(indices[m] == palette_index);
        assert(self.lut@[indices[m] as int] == m);
    }

    /// Facts about the order built by `set_palette`: it has 256 entries, all
    /// below 256 and pairwise distinct.
    proof fn lemma_order_length(&self, anchors: Seq<usize>, indices: Seq<usize>)
        requires
            anchors_valid(anchors),
            indices.len() >= 8,
            indices.subrange(0, 8) == anchors,
            forall|m: int| 8 <= m < indices.len() ==> #[trigger] indices[m] < 256,
            forall|m: int, l: int| 8 <= m < l < indices.len() ==> indices[m] < indices[l],
            forall|m: int| 8 <= m < indices.len() ==> !anchors.contains(#[trigger] indices[m]),
            forall|q: usize| q < 256 ==> #[trigger] indices.contains(q),
        ensures
            is_palette_order(anchors, indices),
            forall|m: int| 0 <= m < 256 ==> #[trigger] indices[m] < 256,
            forall|m: int, l: int| 0 <= m < l < 256 ==> indices[m] != indices[l],
    {
        assert forall|m: int| 0 <= m < 8 implies #[trigger] indices[m] == anchors[m] by {
            assert(indices.subrange(0, 8)[m] == indices[m]);
        }
        assert forall|m: int| 0 <= m < indices.len() implies #[trigger] indices[m] < 256 by {
            if m < 8 {
                assert(indices[m] == anchors[m]);
            }
        }
        assert forall|m: int, l: int| 0 <= m < l < indices.len() implies indices[m] != indices[l] by {
            if l < 8 {
                assert(indices[m] == anchors[m] && indices[l] == anchors[l]);
            } else if m < 8 {
                assert(indices[m] == anchors[m]);
                assert(anchors.contains(indices[m]));
            }
        }
        let s = indices.map_values(|x: usize| x as int);
        assert(s.no_duplicates()) by {
            assert forall|m: int, l: int| 0 <= m < s.len() && 0 <= l < s.len() && m != l implies s[m]
                != s[l] by {
                if m < l {
                    assert(indices[m] != indices[l]);
                } else {
                    assert(indices[l] != indices[m]);
                }
            }
        }
        s.unique_seq_to_set();
        lemma_int_range(0, 256);
        assert(s.to_set() =~= set_int_range(0, 256)) by {
            assert forall|x: int| s.to_set().contains(x) implies set_int_range(0, 256).contains(x) by {
                let m = choose|m: int| 0 <= m < s.len() && s[m] == x;
                assert(indices[m] < 256);
            }
            assert forall|x: int| set_int_range(0, 256).contains(x) implies s.to_set().contains(x) by {
                let q = x as usize;
                assert(indices.contains(q));
                let m = choose|m: int| 0 <= m < indices.len() && indices[m] == q;
                assert(s[m] == x);
            }
        }
    }
}

impl Default for CursesPalette {
    /// No palette set; every palette index maps to curses color 0.
    fn default() -> (palette: Self)
        ensures
            palette.wf(),
            !palette.has_palette(),
            palette.indices() == Seq::<usize>::empty(),
            palette.lut() == Seq::new(256, |i: int| 0usize),
    {
        let mut lut: Vec<usize> = Vec::new();
        let mut i: usize = 0;
        while i < 256
            invariant
                0 <= i <= 256,
                lut@ == Seq::new(i as nat, |m: int| 0usize),
            decreases 256 - i,
        {
            lut.push(0);
            i = i + 1;
        }
        CursesPalette { indices: Vec::new(), lut }
    }
}

} // verus!
