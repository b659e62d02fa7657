//! The registry of colors and color pairs that have been defined on the
//! curses terminal, handing out terminal indices for new ones.

use vstd::prelude::*;

use crate::entry_map::{entry_map, keys_distinct, lemma_entry_map_lookup, lemma_entry_map_push};
use crate::pancurses_color::{PancursesColor, PancursesColorPair};
use crate::primitive_types::CursesCommand;

verus! {

/// The terminal index of `color` once it has been registered.
pub open spec fn color_index_after(colors: Map<PancursesColor, i16>, head: i16, color: PancursesColor) -> i16 {
    if colors.contains_key(color) {
        colors[color]
    } else {
        head
    }
}

/// The known colors once `color` has been registered.
pub open spec fn colors_after(colors: Map<PancursesColor, i16>, head: i16, color: PancursesColor) -> Map<
    PancursesColor,
    i16,
> {
    if colors.contains_key(color) {
        colors
    } else {
        colors.insert(color, head)
    }
}

/// The next free color index once `color` has been registered.
pub open spec fn color_head_after(colors: Map<PancursesColor, i16>, head: i16, color: PancursesColor) -> i16 {
    if colors.contains_key(color) {
        head
    } else {
        (head + 1) as i16
    }
}

/// What registering `color` sends to the terminal: a color definition when
/// the color is new, nothing otherwise.
pub open spec fn color_commands(colors: Map<PancursesColor, i16>, head: i16, color: PancursesColor) -> Seq<
    CursesCommand,
> {
    if colors.contains_key(color) {
        Seq::empty()
    } else {
        seq![CursesCommand::InitColor { index: head, r: color.r, g: color.g, b: color.b }]
    }
}

/// Registering `color` does not overflow the next free index.
pub open spec fn can_register_color(colors: Map<PancursesColor, i16>, head: i16, color: PancursesColor) -> bool {
    colors.contains_key(color) || head < i16::MAX
}

/// Every registered color has its own index, below the next free one.
pub open spec fn indices_distinct_below(colors: Map<PancursesColor, i16>, head: i16) -> bool {
    &&& 0 <= head
    &&& forall|c: PancursesColor| #[trigger] colors.contains_key(c) ==> 0 <= colors[c] < head
    &&& forall|c: PancursesColor, d: PancursesColor|
        #[trigger] colors.contains_key(c) && #[trigger] colors.contains_key(d) && c != d
            ==> colors[c] != colors[d]
}

/// Registering a color a second time changes nothing, sends nothing to the
/// terminal, and yields the index of the first registration.
pub proof fn lemma_color_registration_idempotent(
    colors: Map<PancursesColor, i16>,
    head: i16,
    color: PancursesColor,
)
    ensures
        ({
            let colors1 = colors_after(colors, head, color);
            let head1 = color_head_after(colors, head, color);
            &&& color_index_after(colors1, head1, color) == color_index_after(colors, head, color)
            &&& colors_after(colors1, head1, color) == colors1
            &&& color_head_after(colors1, head1, color) == head1
            &&& color_commands(colors1, head1, color) == Seq::<CursesCommand>::empty()
        }),
{
}

/// Registration hands out distinct indices: when every registered color has
/// its own index below the next free one, this stays so after registering
/// any color, and the new color's index differs from every other color's.
pub proof fn lemma_color_registration_keeps_indices_distinct(
    colors: Map<PancursesColor, i16>,
    head: i16,
    color: PancursesColor,
)
    requires
        indices_distinct_below(colors, head),
        can_register_color(colors, head, color),
    ensures
        indices_distinct_below(
            colors_after(colors, head, color),
            color_head_after(colors, head, color),
        ),
        forall|d: PancursesColor|
            #[trigger] colors_after(colors, head, color).contains_key(d) && d != color
                ==> colors_after(colors, head, color)[d] != color_index_after(colors, head, color),
{
    let colors1 = colors_after(colors, head, color);
    let head1 = color_head_after(colors, head, color);
    if !colors.contains_key(color) {
        assert forall|c: PancursesColor| #[trigger] colors1.contains_key(c) implies 0 <= colors1[c]
            < head1 by {
            if c != color {
                assert(colors.contains_key(c));
            }
        }
        assert forall|c: PancursesColor, d: PancursesColor|
            #[trigger] colors1.contains_key(c) && #[trigger] colors1.contains_key(d) && c != d
                implies colors1[c] != colors1[d] by {
            if c != color && d != color {
                assert(colors.contains_key(c) && colors.contains_key(d));
            } else if c == color {
                assert(colors.contains_key(d));
            } else {
                assert(colors.contains_key(c));
            }
        }
    }
}

/// Colors and color pairs defined on the terminal, with the next free index
/// of each.
#[derive(Debug, Clone)]
pub struct PancursesColorSetComponent {
    color_head: i16,
    color_pair_head: i16,
    colors: Vec<(PancursesColor, i16)>,
    color_pairs: Vec<(PancursesColorPair, i16)>,
}

fn find_color(entries: &Vec<(PancursesColor, i16)>, color: PancursesColor) -> (index: Option<i16>)
    requires
        keys_distinct(entries@),
    ensures
        index == (if entry_map(entries@).contains_key(color) {
            Some(entry_map(entries@)[color])
        } else {
            None
        }),
{
    proof {
        lemma_entry_map_lookup(entries@);
    }
    let mut i: usize = 0;
    while i < entries.len()
        invariant
            0 <= i <= entries@.len(),
            keys_distinct(entries@),
            forall|j: int| 0 <= j < i ==> entries@[j].0 != color,
        decreases entries@.len() - i,
    {
        if entries[i].0 == color {
            proof {
                lemma_entry_map_lookup(entries@);
            }
            return Some(entries[i].1);
        }
        i = i + 1;
    }
    None
}

fn find_color_pair(entries: &Vec<(PancursesColorPair, i16)>, pair: PancursesColorPair) -> (index:
    Option<i16>)
    requires
        keys_distinct(entries@),
    ensures
        index == (if entry_map(entries@).contains_key(pair) {
            Some(entry_map(entries@)[pair])
        } else {
            None
        }),
{
    proof {
        lemma_entry_map_lookup(entries@);
    }
    let mut i: usize = 0;
    while i < entries.len()
        invariant
            0 <= i <= entries@.len(),
            keys_distinct(entries@),
            forall|j: int| 0 <= j < i ==> entries@[j].0 != pair,
        decreases entries@.len() - i,
    {
        if entries[i].0 == pair {
            proof {
                lemma_entry_map_lookup(entries@);
            }
            return Some(entries[i].1);
        }
        i = i + 1;
    }
    None
}

impl PancursesColorSetComponent {
    /// The registered colors and their terminal indices.
    pub closed spec fn colors(&self) -> Map<PancursesColor, i16> {
        entry_map(self.colors@)
    }

    /// The registered color pairs and their terminal indices.
    pub closed spec fn color_pairs(&self) -> Map<PancursesColorPair, i16> {
        entry_map(self.color_pairs@)
    }

    /// The index the next new color receives.
    pub closed spec fn color_head(&self) -> i16 {
        self.color_head
    }

    /// The index the next new color pair receives.
    pub closed spec fn color_pair_head(&self) -> i16 {
        self.color_pair_head
    }

    /// Whether `color_pair` is known, or can be registered (with its colors)
    /// without running out of indices.
    pub open spec fn can_register_pair(&self, color_pair: PancursesColorPair) -> bool {
        self.color_pairs().contains_key(color_pair) || {
            let fg = color_pair.foreground;
            let bg = color_pair.background;
            let colors = self.colors();
            let head = self.color_head();
            &&& self.color_pair_head() < i16::MAX
            &&& can_register_color(colors, head, fg)
            &&& can_register_color(colors_after(colors, head, fg), color_head_after(colors, head, fg), bg)
        }
    }

    /// The terminal index of `color_pair` once it has been registered: its
    /// known index, or the next free pair index.
    pub open spec fn pair_index_after(&self, color_pair: PancursesColorPair) -> i16 {
        if self.color_pairs().contains_key(color_pair) {
            self.color_pairs()[color_pair]
        } else {
            self.color_pair_head()
        }
    }

    /// What registering `color_pair` sends to the terminal: nothing for a
    /// known pair; otherwise the definitions of its new colors (foreground
    /// first) and then of the pair.
    pub open spec fn pair_commands(&self, color_pair: PancursesColorPair) -> Seq<CursesCommand> {
        if self.color_pairs().contains_key(color_pair) {
            Seq::empty()
        } else {
            let fg = color_pair.foreground;
            let bg = color_pair.background;
            let colors = self.colors();
            let head = self.color_head();
            let colors1 = colors_after(colors, head, fg);
            let head1 = color_head_after(colors, head, fg);
            color_commands(colors, head, fg) + color_commands(colors1, head1, bg) + seq![
                CursesCommand::InitPair {
                    index: self.color_pair_head(),
                    foreground: color_index_after(colors, head, fg),
                    background: color_index_after(colors1, head1, bg),
                },
            ]
        }
    }

    /// Whether `after` is this set once `color_pair` has been registered: a
    /// known pair changes nothing; a new pair registers its foreground and
    /// background colors and then takes the next free pair index.
    pub open spec fn pair_registered(&self, after: Self, color_pair: PancursesColorPair) -> bool {
        if self.color_pairs().contains_key(color_pair) {
            &&& after.colors() == self.colors()
            &&& after.color_head() == self.color_head()
            &&& after.color_pairs() == self.color_pairs()
            &&& after.color_pair_head() == self.color_pair_head()
        } else {
            let fg = color_pair.foreground;
            let bg = color_pair.background;
            let colors = self.colors();
            let head = self.color_head();
            let colors1 = colors_after(colors, head, fg);
            let head1 = color_head_after(colors, head, fg);
            &&& after.colors() == colors_after(colors1, head1, bg)
            &&& after.color_head() == color_head_after(colors1, head1, bg)
            &&& after.color_pairs() == self.color_pairs().insert(color_pair, self.color_pair_head())
            &&& after.color_pair_head() == self.color_pair_head() + 1
        }
    }

    /// The entry lists describe maps (no key twice).
    pub closed spec fn wf(&self) -> bool {
        &&& keys_distinct(self.colors@)
        &&& keys_distinct(self.color_pairs@)
    }

    /// Starts from colors and pairs that are already defined; the next free
    /// indices are the numbers of each (truncated to `i16`).
    pub fn new(colors: Vec<(PancursesColor, i16)>, color_pairs: Vec<(PancursesColorPair, i16)>) -> (set:
        Self)
        requires
            keys_distinct(colors@),
            keys_distinct(color_pairs@),
        ensures
            set.wf(),
            set.colors() == entry_map(colors@),
            set.color_pairs() == entry_map(color_pairs@),
            set.color_head() == colors@.len() as i16,
            set.color_pair_head() == color_pairs@.len() as i16,
    {
        PancursesColorSetComponent {
            color_head: colors.len() as i16,
            color_pair_head: color_pairs.len() as i16,
            colors,
            color_pairs,
        }
    }

    /// The terminal index of `color`, registering it under the next free
    /// index (and asking the terminal to define it) when it is new.
    pub fn get_color_idx(&mut self, color: PancursesColor, commands: &mut Vec<CursesCommand>) -> (index:
        i16)
        requires
            old(self).wf(),
            can_register_color(old(self).colors(), old(self).color_head(), color),
        ensures
            final(self).wf(),
            index == color_index_after(old(self).colors(), old(self).color_head(), color),
            final(self).colors() == colors_after(old(self).colors(), old(self).color_head(), color),
            final(self).color_head() == color_head_after(
                old(self).colors(),
                old(self).color_head(),
                color,
            ),
            final(self).color_pairs() == old(self).color_pairs(),
            final(self).color_pair_head() == old(self).color_pair_head(),
            final(commands)@ == old(commands)@ + color_commands(
                old(self).colors(),
                old(self).color_head(),
                color,
            ),
    {
        match find_color(&self.colors, color) {
            Some(index) => {
                assert(old(commands)@ + Seq::empty() =~= old(commands)@);
                index
            },
            None => {
                let index = self.color_head;
                commands.push(CursesCommand::InitColor { index, r: color.r, g: color.g, b: color.b });
                proof {
                    lemma_entry_map_push(self.colors@, color, index);
                }
                self.colors.push((color, index));
                self.color_head = self.color_head + 1;
                index
            },
        }
    }

    /// Whether `color_pair` can be registered without overflowing a next
    /// free index (see `can_register_pair`).
    pub fn can_register(&self, color_pair: &PancursesColorPair) -> (ok: bool)
        requires
            self.wf(),
        ensures
            ok == self.can_register_pair(*color_pair),
    {
        if find_color_pair(&self.color_pairs, *color_pair).is_some() {
            return true;
        }
        if self.color_pair_head == i16::MAX {
            return false;
        }
        let fg_known = find_color(&self.colors, color_pair.foreground).is_some();
        if !fg_known && self.color_head == i16::MAX {
            return false;
        }
        let head = if fg_known { self.color_head } else { self.color_head + 1 };
        let bg_known = find_color(&self.colors, color_pair.background).is_some()
            || (!fg_known && color_pair.background == color_pair.foreground);
        bg_known || head < i16::MAX
    }

    /// The terminal index of `color_pair`, registering it under the next
    /// free pair index when it is new: its foreground, then its background
    /// color are registered first, then the terminal is asked to define the
    /// pair from their indices.
    pub fn get_color_pair_idx(
        &mut self,
        color_pair: &PancursesColorPair,
        commands: &mut Vec<CursesCommand>,
    ) -> (index: i16)
        requires
            old(self).wf(),
            old(self).can_register_pair(*color_pair),
        ensures
            final(self).wf(),
            index == old(self).pair_index_after(*color_pair),
            old(self).pair_registered(*final(self), *color_pair),
            final(commands)@ == old(commands)@ + old(self).pair_commands(*color_pair),
    {
        match find_color_pair(&self.color_pairs, *color_pair) {
            Some(index) => {
                assert(old(commands)@ + Seq::<CursesCommand>::empty() =~= old(commands)@);
                index
            },
            None => {
                let index = self.color_pair_head;
                let foreground = self.get_color_idx(color_pair.foreground, commands);
                let background = self.get_color_idx(color_pair.background, commands);
                commands.push(CursesCommand::InitPair { index, foreground, background });
                proof {
                    lemma_entry_map_push(self.color_pairs@, *color_pair, index);
                }
                self.color_pairs.push((*color_pair, index));
                self.color_pair_head = self.color_pair_head + 1;
                index
            },
        }
    }
}

/// Registering a color pair a second time finds the index of the first
/// registration and sends nothing more to the terminal.
pub proof fn lemma_pair_registration_idempotent(
    before: PancursesColorSetComponent,
    after: PancursesColorSetComponent,
    color_pair: PancursesColorPair,
)
    requires
        before.pair_registered(after, color_pair),
    ensures
        after.color_pairs().contains_key(color_pair),
        after.pair_index_after(color_pair) == before.pair_index_after(color_pair),
        after.pair_commands(color_pair) == Seq::<CursesCommand>::empty(),
        after.pair_registered(after, color_pair),
{
}

impl Default for PancursesColorSetComponent {
    /// No colors and no pairs registered.
    fn default() -> (set: Self)
        ensures
            set.wf(),
            set.colors() == Map::<PancursesColor, i16>::empty(),
            set.color_pairs() == Map::<PancursesColorPair, i16>::empty(),
            set.color_head() == 0,
            set.color_pair_head() == 0,
    {
        let colors: Vec<(PancursesColor, i16)> = Vec::new();
        let color_pairs: Vec<(PancursesColorPair, i16)> = Vec::new();
        PancursesColorSetComponent::new(colors, color_pairs)
    }
}

} // verus!
