//! Opening the curses window: its size, title and background, and the
//! colors a fresh terminal starts with.

use vstd::prelude::*;

use crate::components::pancurses_color_set_component::PancursesColorSetComponent;
use crate::components::window_component::PancursesWindowComponent;
use crate::curses_cell::{cell_with_pair, curses_cell};
use crate::entry_map::{entry_map, keys_distinct, lemma_entry_map_len, lemma_entry_map_lookup, lemma_entry_map_push, lemma_entry_map_update};
use crate::pancurses_color::{PancursesColor, PancursesColorPair};
use crate::primitive_types::{CursesCommand, Vector2I};

verus! {

/// The colors a fresh terminal reports for its first color indices, each
/// under its index, in index order.
pub open spec fn reported_colors(contents: Seq<(i16, i16, i16)>) -> Seq<(PancursesColor, i16)> {
    Seq::new(
        contents.len(),
        |i: int| (PancursesColor { r: contents[i].0, g: contents[i].1, b: contents[i].2 }, i as i16),
    )
}

/// How a window is opened: its size in rows and columns, its title, the
/// color pair of its background and the background cell.
#[derive(Debug, Clone)]
pub struct WindowSetup {
    pub width: i32,
    pub height: i32,
    pub title: String,
    pub background_pair: i16,
    pub background: u32,
}

/// Opens the curses window of a window entity and keeps its size.
#[derive(Debug, Copy, Clone)]
pub struct PancursesWindowSystem;

impl PancursesWindowSystem {
    pub fn new() -> (system: Self) {
        PancursesWindowSystem
    }

    /// Whether a window still has to be opened for the component: only
    /// when it holds none yet.
    pub fn needs_window(&self, component: &PancursesWindowComponent) -> (needed: bool)
        ensures
            needed == !component.is_open(),
    {
        component.get_window().is_none()
    }

    /// The color set a fresh terminal starts with: the colors it reports for
    /// indices 0 to 7, where a color reported under several indices keeps
    /// the last of them, and white on black as pair 0. The next free color
    /// index is the number of different colors.
    pub fn initial_color_set(contents: [(i16, i16, i16); 8]) -> (set: PancursesColorSetComponent)
        ensures
            set.wf(),
            set.colors() == entry_map(reported_colors(contents@)),
            set.color_head() == entry_map(reported_colors(contents@)).dom().len() as i16,
            set.color_pairs() == map![
                (PancursesColorPair {
                    foreground: PancursesColor { r: 1000, g: 1000, b: 1000 },
                    background: PancursesColor { r: 0, g: 0, b: 0 },
                }) => 0i16,
            ],
            set.color_pair_head() == 1,
    {
        let ghost raw = reported_colors(contents@);
        let mut entries: Vec<(PancursesColor, i16)> = Vec::new();
        let mut i: usize = 0;
        while i < 8
            invariant
                0 <= i <= 8,
                raw == reported_colors(contents@),
                contents@.len() == 8,
                keys_distinct(entries@),
                entries@.len() <= i,
                entry_map(entries@) == entry_map(raw.subrange(0, i as int)),
            decreases 8 - i,
        {
            let (r, g, b) = contents[i];
            let color = PancursesColor::new(r, g, b);
            let index = i as i16;
            assert(raw.subrange(0, i + 1).drop_last() =~= raw.subrange(0, i as int));
            assert(raw[i as int] == (color, index));
            let mut p: usize = 0;
            let mut found = false;
            while p < entries.len()
                invariant_except_break
                    forall|j: int| 0 <= j < p ==> entries@[j].0 != color,
                    !found,
                invariant
                    0 <= p <= entries@.len(),
                ensures
                    found ==> p < entries@.len() && entries@[p as int].0 == color,
                    !found ==> forall|j: int| 0 <= j < entries@.len() ==> entries@[j].0 != color,
                decreases entries@.len() - p,
            {
                if entries[p].0 == color {
                    found = true;
                    break;
                }
                p = p + 1;
            }
            if found {
                proof {
                    lemma_entry_map_update(entries@, p as int, index);
                }
                entries.set(p, (color, index));
            } else {
                proof {
                    lemma_entry_map_lookup(entries@);
                    if entry_map(entries@).contains_key(color) {
                        let j = choose|j: int| 0 <= j < entries@.len() && entries@[j].0 == color;
                        assert(entries@[j].0 != color);
                    }
                    lemma_entry_map_push(entries@, color, index);
                }
                entries.push((color, index));
            }
            i = i + 1;
        }
        assert(raw.subrange(0, 8) =~= raw);
        proof {
            lemma_entry_map_len(entries@);
        }
        let white_on_black = PancursesColorPair::default();
        let mut pairs: Vec<(PancursesColorPair, i16)> = Vec::new();
        pairs.push((white_on_black, 0));
        assert(keys_distinct(pairs@));
        assert(pairs@.drop_last() =~= Seq::<(PancursesColorPair, i16)>::empty());
        assert(pairs@.last() == (white_on_black, 0i16));
        assert(entry_map(pairs@.drop_last()) =~= Map::<PancursesColorPair, i16>::empty());
        assert(entry_map(pairs@) == entry_map(pairs@.drop_last()).insert(white_on_black, 0i16));
        assert(entry_map(pairs@) =~= map![
            (PancursesColorPair {
                foreground: PancursesColor { r: 1000, g: 1000, b: 1000 },
                background: PancursesColor { r: 0, g: 0, b: 0 },
            }) => 0i16,
        ]);
        PancursesColorSetComponent::new(entries, pairs)
    }

    /// How to open the window of a window entity `size` cells large: with
    /// its title, or "Antigen" when it has none; and a background of its
    /// character (a space when it has none) in its color pair (white on
    /// black when it has none), which is registered in the color set.
    pub fn window_setup(
        &self,
        size: Vector2I,
        title: Option<String>,
        background_char: Option<char>,
        background_pair: Option<PancursesColorPair>,
        color_set: &mut PancursesColorSetComponent,
        commands: &mut Vec<CursesCommand>,
    ) -> (setup: WindowSetup)
        requires
            old(color_set).wf(),
            old(color_set).can_register_pair(
                match background_pair {
                    Some(pair) => pair,
                    None => PancursesColorPair {
                        foreground: PancursesColor { r: 1000, g: 1000, b: 1000 },
                        background: PancursesColor { r: 0, g: 0, b: 0 },
                    },
                },
            ),
        ensures
            ({
                let pair = match background_pair {
                    Some(pair) => pair,
                    None => PancursesColorPair {
                        foreground: PancursesColor { r: 1000, g: 1000, b: 1000 },
                        background: PancursesColor { r: 0, g: 0, b: 0 },
                    },
                };
                let c = match background_char {
                    Some(c) => c,
                    None => ' ',
                };
                &&& setup.width == size.0 as i32
                &&& setup.height == size.1 as i32
                &&& setup.title@ == match title {
                    Some(t) => t@,
                    None => "Antigen"@,
                }
                &&& setup.background_pair == old(color_set).pair_index_after(pair)
                &&& setup.background == curses_cell(c, setup.background_pair as u32)
                &&& final(color_set).wf()
                &&& old(color_set).pair_registered(*final(color_set), pair)
                &&& final(commands)@ == old(commands)@ + old(color_set).pair_commands(pair)
            }),
    {
        let pair = match background_pair {
            Some(pair) => pair,
            None => PancursesColorPair::default(),
        };
        let c = match background_char {
            Some(c) => c,
            None => ' ',
        };
        let title = match title {
            Some(t) => t,
            None => "Antigen".to_owned(),
        };
        let background_pair = color_set.get_color_pair_idx(&pair, commands);
        let background = cell_with_pair(c, background_pair as u32);
        WindowSetup {
            width: size.0 as i32,
            height: size.1 as i32,
            title,
            background_pair,
            background,
        }
    }

    /// The size of a window whose last row and column curses reports.
    pub fn window_size(max_y: i32, max_x: i32) -> (size: Vector2I)
        ensures
            size == Vector2I(max_x as i64, max_y as i64),
    {
        Vector2I(max_x as i64, max_y as i64)
    }
}

} // verus!
