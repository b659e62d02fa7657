//! Defining the colors of a palette on the curses terminal, each with a
//! color pair for text drawn on it.

use vstd::prelude::*;

use crate::primitive_types::CursesCommand;

verus! {

/// The requests that define the palette colors on the terminal: for color
/// `i`, its channels under index `i`, then pair `i` of its text color on it.
pub open spec fn palette_commands(channels: Seq<(i16, i16, i16)>, foregrounds: Seq<usize>) -> Seq<CursesCommand>
    decreases channels.len(),
{
    if channels.len() == 0 {
        Seq::empty()
    } else {
        let i = channels.len() - 1;
        palette_commands(channels.drop_last(), foregrounds) + seq![
            CursesCommand::InitColor {
                index: i as i16,
                r: channels[i].0,
                g: channels[i].1,
                b: channels[i].2,
            },
            CursesCommand::InitPair {
                index: i as i16,
                foreground: foregrounds[i] as i16,
                background: i as i16,
            },
        ]
    }
}

/// Each palette color is defined under its own index, followed right away
/// by the pair of its text color on it: request `2 i` defines color `i` and
/// request `2 i + 1` defines pair `i` with color `i` as its background.
pub proof fn lemma_palette_commands_layout(channels: Seq<(i16, i16, i16)>, foregrounds: Seq<usize>)
    ensures
        palette_commands(channels, foregrounds).len() == 2 * channels.len(),
        forall|i: int|
            0 <= i < channels.len() ==> {
                &&& #[trigger] palette_commands(channels, foregrounds)[2 * i] == (CursesCommand::InitColor {
                    index: i as i16,
                    r: channels[i].0,
                    g: channels[i].1,
                    b: channels[i].2,
                })
                &&& palette_commands(channels, foregrounds)[2 * i + 1] == (CursesCommand::InitPair {
                    index: i as i16,
                    foreground: foregrounds[i] as i16,
                    background: i as i16,
                })
            },
    decreases channels.len(),
{
    if channels.len() > 0 {
        let rest = channels.drop_last();
        lemma_palette_commands_layout(rest, foregrounds);
        let all = palette_commands(channels, foregrounds);
        let before = palette_commands(rest, foregrounds);
        assert forall|i: int| 0 <= i < channels.len() implies {
            &&& #[trigger] all[2 * i] == (CursesCommand::InitColor {
                index: i as i16,
                r: channels[i].0,
                g: channels[i].1,
                b: channels[i].2,
            })
            &&& all[2 * i + 1] == (CursesCommand::InitPair {
                index: i as i16,
                foreground: foregrounds[i] as i16,
                background: i as i16,
            })
        } by {
            if i < rest.len() {
                assert(all[2 * i] == before[2 * i]);
                assert(all[2 * i + 1] == before[2 * i + 1]);
                assert(rest[i] == channels[i]);
            }
        }
    }
}

/// The requests that define the palette colors (with their channels in
/// curses units) and, for each, the color pair of its text color (given as
/// a color index) on it.
pub fn palette_registration(channels: &Vec<(i16, i16, i16)>, foregrounds: &Vec<usize>) -> (commands: Vec<CursesCommand>)
    requires
        foregrounds@.len() == channels@.len(),
    ensures
        commands@ == palette_commands(channels@, foregrounds@),
{
    let mut commands: Vec<CursesCommand> = Vec::new();
    let mut i: usize = 0;
    while i < channels.len()
        invariant
            0 <= i <= channels@.len(),
            foregrounds@.len() == channels@.len(),
            commands@ == palette_commands(channels@.subrange(0, i as int), foregrounds@),
        decreases channels@.len() - i,
    {
        let ghost prefix = channels@.subrange(0, i + 1);
        assert(prefix.drop_last() =~= channels@.subrange(0, i as int));
        let (r, g, b) = channels[i];
        let index = i as i16;
        commands.push(CursesCommand::InitColor { index, r, g, b });
        commands.push(CursesCommand::InitPair { index, foreground: foregrounds[i] as i16, background: index });
        assert(commands@ =~= palette_commands(prefix, foregrounds@));
        i = i + 1;
    }
    assert(channels@.subrange(0, channels@.len() as int) =~= channels@);
    commands
}

} // verus!
