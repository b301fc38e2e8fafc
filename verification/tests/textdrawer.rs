use fluxcore::textdrawer::{AnchorHor, AnchorVert, Character, Glyph, Kerning, Missing, TextDrawer};

// Metrics as the font gives them: the advance in 65536ths, the height in 64ths of a pixel.
fn character(ch: char, index: u32, left: i32, top: i32, advance_x: i64, height: i64) -> Character {
    Character {
        ch,
        index,
        left,
        top,
        advance_x: advance_x * 65536,
        advance_y: 0,
        height: height * 64,
    }
}

fn kerning(left: u32, right: u32, x: i64, y: i64) -> Kerning {
    Kerning { left, right, x: x * 65536, y: y * 65536 }
}

fn drawer() -> TextDrawer {
    let mut d = TextDrawer::new(16);
    d.load_character(character('a', 1, 1, 8, 10, 8));
    d.load_character(character('b', 2, 0, 12, 9, 12));
    d.load_kerning(kerning(1, 2, -1, 0));
    d.load_kerning(kerning(2, 1, 0, 0));
    d.load_kerning(kerning(1, 1, 2, 1));
    d
}

#[test]
fn extent_of_one_line() {
    let d = drawer();
    let layout = d.render_raw(&"ab".to_string(), true);
    assert_eq!((layout.width, layout.height), (18, -12));
    assert_eq!(
        layout.glyphs,
        vec![Glyph { ch: 'a', x: 1, y: -8 }, Glyph { ch: 'b', x: 9, y: -12 }]
    );
    let measured = d.render_raw(&"ab".to_string(), false);
    assert_eq!((measured.width, measured.height), (18, -12));
    assert!(measured.glyphs.is_empty());
}

#[test]
fn a_line_break_starts_a_new_line_without_kerning() {
    let d = drawer();
    let layout = d.render_raw(&"aab\na".to_string(), true);
    // first line: a (10), kerning 2 and 1 down, a (10), kerning -1, b (9)
    assert_eq!((layout.width, layout.height), (30, 17 - 12));
    assert_eq!(
        layout.glyphs,
        vec![
            Glyph { ch: 'a', x: 1, y: -8 },
            Glyph { ch: 'a', x: 13, y: -7 },
            Glyph { ch: 'b', x: 21, y: -11 },
            Glyph { ch: 'a', x: 1, y: 9 },
        ]
    );
}

#[test]
fn empty_text() {
    let d = drawer();
    let layout = d.render_raw(&String::new(), true);
    assert_eq!((layout.width, layout.height), (0, 0));
    assert!(layout.glyphs.is_empty());
    assert!(d.render(&String::new(), AnchorHor::Center, AnchorVert::Middle).is_empty());
}

#[test]
fn anchors_move_the_text() {
    let d = drawer();
    let text = "ab".to_string();
    // extent (18, -12)
    let at = |hor, vert| {
        let g = d.render(&text, hor, vert);
        (g[0].x - 1, g[0].y + 8)
    };
    assert_eq!(at(AnchorHor::Left, AnchorVert::Bottom), (0, 0));
    assert_eq!(at(AnchorHor::Center, AnchorVert::Bottom), (-9, 0));
    assert_eq!(at(AnchorHor::Right, AnchorVert::Bottom), (-18, 0));
    assert_eq!(at(AnchorHor::Left, AnchorVert::Middle), (0, 6));
    assert_eq!(at(AnchorHor::Left, AnchorVert::Top), (0, 12));
    let a = "a".to_string();
    // extent (10, -8): half of -10 is -5; an odd width rounds down
    assert_eq!(d.render(&a, AnchorHor::Center, AnchorVert::Top)[0], Glyph { ch: 'a', x: -4, y: 0 });
    let mut odd = TextDrawer::new(16);
    odd.load_character(character('i', 7, 0, 5, 3, 5));
    let i = "i".to_string();
    assert_eq!(odd.render(&i, AnchorHor::Center, AnchorVert::Middle)[0], Glyph { ch: 'i', x: -2, y: -5 + 3 });
}

#[test]
fn what_is_missing_is_asked_for_in_the_order_of_the_text() {
    let mut d = TextDrawer::new(16);
    let text = "ab\nba".to_string();
    assert_eq!(d.missing(&text), Some(Missing::Character('a')));
    d.load_character(character('a', 1, 0, 0, 1, 1));
    assert_eq!(d.missing(&text), Some(Missing::Character('b')));
    d.load_character(character('b', 2, 0, 0, 1, 1));
    assert_eq!(d.missing(&text), Some(Missing::Kerning(1, 2)));
    d.load_kerning(kerning(1, 2, 0, 0));
    assert_eq!(d.missing(&text), Some(Missing::Kerning(2, 1)));
    d.load_kerning(kerning(2, 1, 0, 0));
    assert_eq!(d.missing(&text), None);
    assert_eq!(d.missing(&String::new()), None);
    assert_eq!(d.missing(&"\n\n".to_string()), None);
}

#[test]
fn what_was_loaded_last_counts() {
    let mut d = drawer();
    d.load_character(character('a', 1, 0, 0, 100, 50));
    d.load_kerning(kerning(1, 1, 5, 0));
    let layout = d.render_raw(&"aa".to_string(), true);
    assert_eq!((layout.width, layout.height), (205, -50));
    assert_eq!(layout.glyphs[1], Glyph { ch: 'a', x: 105, y: 0 });
}

#[test]
fn characters_that_were_not_loaded_are_left_out() {
    let d = drawer();
    let layout = d.render_raw(&"a?b".to_string(), true);
    assert_eq!((layout.width, layout.height), (18, -12));
    assert_eq!(layout.glyphs.len(), 2);
}

#[test]
fn parts_of_a_pixel_are_left_out() {
    let mut d = TextDrawer::new(16);
    // an advance of one and a half pixels, a height of one pixel less a 64th
    d.load_character(Character {
        ch: 'a',
        index: 1,
        left: 0,
        top: 0,
        advance_x: 98_304,
        advance_y: -1,
        height: 63,
    });
    // a kerning of half a pixel to the left
    d.load_kerning(Kerning { left: 1, right: 1, x: -32_768, y: 65_535 });
    let layout = d.render_raw(&"aa".to_string(), true);
    // advances round down to 1 and -1, the kerning to -1 and 0
    assert_eq!(layout.glyphs, vec![Glyph { ch: 'a', x: 0, y: 0 }, Glyph { ch: 'a', x: 0, y: -1 }]);
    assert_eq!((layout.width, layout.height), (1, -2));
    let mut tall = TextDrawer::new(16);
    tall.load_character(Character {
        ch: 'b',
        index: 2,
        left: 0,
        top: 0,
        advance_x: 0,
        advance_y: 0,
        height: 64 * 10 + 63,
    });
    assert_eq!(tall.render_raw(&"b".to_string(), false).height, -10);
    tall.load_character(Character {
        ch: 'b',
        index: 2,
        left: 0,
        top: 0,
        advance_x: 0,
        advance_y: 0,
        height: i64::MAX,
    });
    assert_eq!(tall.render_raw(&"b".to_string(), false).height, -(i32::MAX as i128));
    tall.load_character(Character {
        ch: 'b',
        index: 2,
        left: 0,
        top: 0,
        advance_x: 0,
        advance_y: 0,
        height: -65,
    });
    assert_eq!(tall.render_raw(&"b".to_string(), false).height, 0);
}
