use glyph_draw::cache::GlyphEntry;
use glyph_draw::chars::ascii;
use glyph_draw::chars::candidates;
use glyph_draw::chars::latin1_is_control;
use glyph_draw::chars::CharSet;
use glyph_draw::glyph::GlyphDrawer;

fn entry(advance: i32, width: u32, height: u32, tex: u64) -> GlyphEntry {
    GlyphEntry { advance, width, height, tex }
}

#[test]
fn cache_round_trip() {
    let e_h = entry(10, 8, 12, 1);
    let e_i = entry(5, 4, 12, 2);
    let drawer = GlyphDrawer::new(vec![('H', Some(e_h)), ('i', Some(e_i)), ('q', None)]);
    assert_eq!(drawer.lookup('H'), Some(&e_h));
    assert_eq!(drawer.lookup('i'), Some(&e_i));
}

#[test]
fn missing_character_is_absent() {
    let e_h = entry(10, 8, 12, 1);
    let drawer = GlyphDrawer::new(vec![('H', Some(e_h)), ('q', None)]);
    assert_eq!(drawer.lookup('q'), None);
    assert_eq!(drawer.lookup('z'), None);
}

#[test]
fn missing_character_warns_and_draws_nothing() {
    let drawer = GlyphDrawer::new(vec![('b', Some(entry(6, 4, 8, 7)))]);
    let r = drawer.draw("q");
    assert_eq!(r.commands.len(), 0);
    assert_eq!(r.missing, vec!['q']);
}

#[test]
fn warnings_keep_order_and_skip_space() {
    let drawer = GlyphDrawer::new(vec![]);
    let r = drawer.draw("x y");
    assert_eq!(r.commands.len(), 0);
    assert_eq!(r.missing, vec!['x', 'y']);
}

#[test]
fn centering_uniform_advance() {
    let e = entry(10, 6, 9, 3);
    let drawer = GlyphDrawer::new(vec![('a', Some(e)), ('b', Some(e)), ('c', Some(e))]);
    let r = drawer.draw("abc");
    assert_eq!(r.commands.len(), 3);
    // i * 10 - (3 * 10) / 2 for i = 0, 1, 2
    assert_eq!(r.commands[0].x, -15);
    assert_eq!(r.commands[1].x, -5);
    assert_eq!(r.commands[2].x, 5);
    assert_eq!(r.missing.len(), 0);
}

#[test]
fn draw_twice_is_identical() {
    let drawer = GlyphDrawer::new(vec![
        ('H', Some(entry(10, 8, 12, 1))),
        ('i', Some(entry(5, 4, 12, 2))),
    ]);
    let first = drawer.draw("Hi Hi");
    let second = drawer.draw("Hi Hi");
    assert_eq!(first.commands, second.commands);
    assert_eq!(first.missing, second.missing);
}

#[test]
fn empty_string_draws_nothing() {
    let drawer = GlyphDrawer::new(vec![('a', Some(entry(3, 2, 2, 9)))]);
    let r = drawer.draw("");
    assert_eq!(r.commands.len(), 0);
    assert_eq!(r.missing.len(), 0);
}

#[test]
fn hello_scenario_two_commands() {
    let e_h = entry(10, 8, 12, 1);
    let e_i = entry(5, 4, 12, 2);
    let drawer = GlyphDrawer::new(vec![('H', Some(e_h)), ('i', Some(e_i))]);
    let r = drawer.draw("Hi");
    assert_eq!(r.commands.len(), 2);
    assert_eq!(r.missing.len(), 0);
    // 'H': 0 * 10 - (2 * 10) / 2 = -10; quad center at -10 + 8/2 = -6
    assert_eq!(r.commands[0].ch, 'H');
    assert_eq!(r.commands[0].x, -10);
    assert_eq!(r.commands[0].width, 8);
    assert_eq!(r.commands[0].height, 12);
    assert_eq!(r.commands[0].tex, 1);
    assert_eq!(2 * r.commands[0].x + r.commands[0].width as i64, 2 * -6);
    // 'i': 1 * 5 - (2 * 5) / 2 = 0; quad center at 0 + 4/2 = 2
    assert_eq!(r.commands[1].ch, 'i');
    assert_eq!(r.commands[1].x, 0);
    assert_eq!(r.commands[1].width, 4);
    assert_eq!(r.commands[1].height, 12);
    assert_eq!(r.commands[1].tex, 2);
    assert_eq!(2 * r.commands[1].x + r.commands[1].width as i64, 2 * 2);
}

#[test]
fn lone_missing_space_is_silent() {
    let drawer = GlyphDrawer::new(vec![('a', Some(entry(4, 3, 5, 4)))]);
    let r = drawer.draw(" ");
    assert_eq!(r.commands.len(), 0);
    assert_eq!(r.missing.len(), 0);
}

#[test]
fn negative_advance_truncates_toward_zero() {
    let e = entry(-5, 2, 2, 1);
    let drawer = GlyphDrawer::new(vec![('a', Some(e))]);
    let r = drawer.draw("a");
    // 0 * -5 - trunc((1 * -5) / 2) = -(-2) = 2; floor division would give 3
    assert_eq!(r.commands.len(), 1);
    assert_eq!(r.commands[0].x, 2);
}

#[test]
fn later_sample_for_same_character_wins() {
    let e1 = entry(10, 8, 12, 1);
    let e2 = entry(7, 6, 11, 5);
    let drawer = GlyphDrawer::new(vec![('H', Some(e1)), ('H', Some(e2))]);
    assert_eq!(drawer.lookup('H'), Some(&e2));
}

#[test]
fn ascii_candidates_are_the_printable_latin1_range() {
    let v = ascii();
    // 0x20..=0x7E and 0xA0..=0xFE: 95 characters each
    assert_eq!(v.len(), 190);
    assert_eq!(v[0], ' ');
    assert_eq!(*v.last().unwrap(), '\u{FE}');
    assert!(v.contains(&'A'));
    assert!(v.contains(&'~'));
    assert!(!v.contains(&'\u{7}'));
    assert!(!v.contains(&'\u{7F}'));
    assert!(!v.contains(&'\u{9F}'));
    for pair in v.windows(2) {
        assert!((pair[0] as u32) < (pair[1] as u32));
    }
}

#[test]
fn full_unicode_candidates_cover_all_scalar_values() {
    let v = candidates(&CharSet::FullUnicode);
    // all code points up to 0x10FFFF except the 2048 surrogates
    assert_eq!(v.len(), 0x110000 - 0x800);
    assert_eq!(v[0], '\0');
    assert_eq!(*v.last().unwrap(), '\u{10FFFF}');
    assert!(v.contains(&'\u{D7FF}'));
    assert!(v.contains(&'\u{E000}'));
}

#[test]
fn latin1_control_boundaries() {
    assert!(latin1_is_control(0x00));
    assert!(latin1_is_control(0x1F));
    assert!(!latin1_is_control(0x20));
    assert!(!latin1_is_control(0x7E));
    assert!(latin1_is_control(0x7F));
    assert!(latin1_is_control(0x9F));
    assert!(!latin1_is_control(0xA0));
    assert!(!latin1_is_control(0xFE));
}

#[test]
fn cache_built_through_load_glyphs() {
    let e = entry(9, 5, 7, 8);
    let cache = GlyphDrawer::load_glyphs(vec![('k', Some(e)), ('m', None)]);
    assert_eq!(cache.get('k'), Some(&e));
    assert_eq!(cache.get('m'), None);
    assert!(cache.contains('k'));
    assert!(!cache.contains('m'));
}
