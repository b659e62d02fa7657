use antigen_curses::color::{CursesColor, CursesColorPair};
use antigen_curses::pancurses_color::{PancursesColor, PancursesColorPair, PancursesPalette};

const SIX: [u8; 6] = [0x00, 0x33, 0x66, 0x99, 0xCC, 0xFF];
const SEVEN: [u8; 7] = [0x00, 0x2A, 0x55, 0x80, 0xAA, 0xD4, 0xFF];
const EIGHT: [u8; 8] = [0x00, 0x24, 0x49, 0x6D, 0x92, 0xB6, 0xDB, 0xFF];
const FIVE: [u8; 5] = [0x00, 0x40, 0x80, 0xBF, 0xFF];

fn quantize(channel: f32, count: u8) -> u8 {
    (channel * (count - 1) as f32) as u8
}

fn test_palette(palette: &PancursesPalette, reds: &[u8], greens: &[u8], blues: &[u8]) {
    let (red_count, green_count, blue_count) = palette.level_counts();
    for r in 0..10 {
        for g in 0..10 {
            for b in 0..10 {
                let r = r as f32 / 9.0;
                let g = g as f32 / 9.0;
                let b = b as f32 / 9.0;
                println!("Color: {}, {}, {}", r, g, b,);
                let (ri, gi, bi) = (quantize(r, red_count), quantize(g, green_count), quantize(b, blue_count));
                let color = palette.get_color_by_index(ri, gi, bi);
                println!("Lookup: {}, {}, {}\n", color.0, color.1, color.2);
                assert_eq!(color, (reds[ri as usize], greens[gi as usize], blues[bi as usize]));
            }
        }
    }
}

#[test]
fn palette() {
    test_palette(&PancursesPalette::new_666(), &SIX, &SIX, &SIX);
    test_palette(&PancursesPalette::new_676(), &SIX, &SEVEN, &SIX);
    test_palette(&PancursesPalette::new_685(), &SIX, &EIGHT, &FIVE);
}

#[test]
fn palette_level_counts() {
    assert_eq!(PancursesPalette::new_666().level_counts(), (6, 6, 6));
    assert_eq!(PancursesPalette::new_676().level_counts(), (6, 7, 6));
    assert_eq!(PancursesPalette::new_685().level_counts(), (6, 8, 5));
}

#[test]
fn palette_lookup_is_red_major() {
    let palette = PancursesPalette::new_685();
    assert_eq!(palette.get_color_by_index(0, 0, 0), (0x00, 0x00, 0x00));
    assert_eq!(palette.get_color_by_index(5, 7, 4), (0xFF, 0xFF, 0xFF));
    assert_eq!(palette.get_color_by_index(1, 2, 3), (0x33, 0x49, 0xBF));
    let custom = PancursesPalette::new(&[1, 2], &[3, 4, 5], &[6, 7]);
    assert_eq!(custom.level_counts(), (2, 3, 2));
    assert_eq!(custom.get_color_by_index(1, 2, 1), (2, 5, 7));
    assert_eq!(custom.get_color_by_index(0, 1, 0), (1, 4, 6));
}

#[test]
fn color_defaults() {
    assert_eq!(PancursesColor::default(), PancursesColor::new(1000, 1000, 1000));
    assert_eq!(
        PancursesColorPair::default(),
        PancursesColorPair::new(PancursesColor::new(1000, 1000, 1000), PancursesColor::new(0, 0, 0))
    );
    let c = CursesColor::new(1, 2, 3);
    assert_eq!((c.r, c.g, c.b), (1, 2, 3));
    let pair = CursesColorPair::new(CursesColor::new(1, 1, 1), CursesColor::new(2, 2, 2));
    assert_eq!(pair.foreground, CursesColor::new(1, 1, 1));
    assert_eq!(pair.background, CursesColor::new(2, 2, 2));
}

#[test]
fn checked_palette_lookup() {
    let palette = PancursesPalette::new_666();
    assert_eq!(palette.checked_color_by_index(1, 2, 3), Some((0x33, 0x66, 0x99)));
    assert_eq!(palette.checked_color_by_index(5, 5, 5), Some((0xFF, 0xFF, 0xFF)));
    assert_eq!(palette.checked_color_by_index(6, 0, 0), None);
    assert_eq!(palette.checked_color_by_index(8, 0, 0), None);
}
