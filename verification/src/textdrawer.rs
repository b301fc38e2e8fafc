//! Text layout: where the glyphs of a text go, from the metrics of the font.

use std::collections::HashMap;
use vstd::prelude::*;
use crate::arith::div_floor_exec;

verus! {

broadcast use vstd::std_specs::hash::group_hash_axioms;

/// Where a text lies, left to right, with respect to the point it is drawn at.
#[derive(Clone, Copy, Debug, PartialEq, Eq, Structural)]
pub enum AnchorHor {
    Left,
    Center,
    Right,
}

/// Where a text lies, top to bottom, with respect to the point it is drawn at.
#[derive(Clone, Copy, Debug, PartialEq, Eq, Structural)]
pub enum AnchorVert {
    Top,
    Middle,
    Bottom,
}

/// The metrics of one character as the font gives them: the index of its glyph, the
/// offset of its bitmap from the pen in pixels, the advance of the pen in 65536ths of
/// a pixel, and its height in 64ths of a pixel.
#[derive(Clone, Copy, Debug, PartialEq, Eq, Structural)]
pub struct Character {
    pub ch: char,
    pub index: u32,
    pub left: i32,
    pub top: i32,
    pub advance_x: i64,
    pub advance_y: i64,
    pub height: i64,
}

/// The kerning between two glyphs that follow each other as the font gives it, in
/// 65536ths of a pixel.
#[derive(Clone, Copy, Debug, PartialEq, Eq, Structural)]
pub struct Kerning {
    pub left: u32,
    pub right: u32,
    pub x: i64,
    pub y: i64,
}

/// The whole pixels of a length in 65536ths of a pixel, rounded down.
pub open spec fn whole_pixels(v: i64) -> int {
    v / 65536
}

/// The whole pixels of a height in 64ths of a pixel, rounded towards 0 and held to
/// the numbers of 32 bits.
pub open spec fn height_pixels(h: i64) -> int {
    let whole = if h >= 0 {
        h / 64
    } else {
        -((-h) / 64)
    };
    if whole > i32::MAX {
        i32::MAX as int
    } else if whole < i32::MIN {
        i32::MIN as int
    } else {
        whole
    }
}

/// The place of the bitmap of one character.
#[derive(Clone, Copy, Debug, PartialEq, Eq, Structural)]
pub struct Glyph {
    pub ch: char,
    pub x: i128,
    pub y: i128,
}

/// What the font has to supply before a text can be laid out.
#[derive(Clone, Copy, Debug, PartialEq, Eq, Structural)]
pub enum Missing {
    Character(char),
    Kerning(u32, u32),
}

/// The size of a text and the places of its glyphs.
pub struct Layout {
    pub width: i128,
    pub height: i128,
    pub glyphs: Vec<Glyph>,
}

/// The pen while it runs over a text: its place, the width of the widest line so far,
/// the height of the tallest character so far, and the glyph it drew last on this line.
pub struct Pen {
    pub x: int,
    pub y: int,
    pub width: int,
    pub height: int,
    pub last: Option<u32>,
}

/// A text drawer as mathematical values: the line height, the characters that were
/// loaded, by their code points, and the kernings that were loaded, by their pairs.
pub struct TextDrawerView {
    pub size: nat,
    pub characters: Map<u32, Character>,
    pub kernings: Map<u64, Kerning>,
}

/// The key of a pair of glyphs: the index of the left one in the upper half of the
/// number, that of the right one in the lower half.
pub open spec fn pair_key(left: u32, right: u32) -> u64 {
    (left * 0x1_0000_0000 + right) as u64
}

/// The metrics loaded for a character.
pub open spec fn character_of(characters: Map<u32, Character>, ch: char) -> Option<Character> {
    if characters.dom().contains(ch as u32) {
        Some(characters[ch as u32])
    } else {
        None
    }
}

/// The kerning loaded for a pair of glyphs.
pub open spec fn kerning_of(kernings: Map<u64, Kerning>, left: u32, right: u32) -> Option<
    Kerning,
> {
    if kernings.dom().contains(pair_key(left, right)) {
        Some(kernings[pair_key(left, right)])
    } else {
        None
    }
}

/// The larger of two numbers.
pub open spec fn larger(a: int, b: int) -> int {
    if a < b {
        b
    } else {
        a
    }
}

impl TextDrawerView {
    /// The move of the pen between the glyph drawn last and the glyph `index`.
    pub open spec fn kerning(self, last: Option<u32>, index: u32) -> (int, int) {
        match last {
            Some(left) => match kerning_of(self.kernings, left, index) {
                Some(k) => (whole_pixels(k.x), whole_pixels(k.y)),
                None => (0, 0),
            },
            None => (0, 0),
        }
    }

    /// The pen after one more character. A line break takes the pen to the start of
    /// the next line; a character that was not loaded leaves it where it is.
    pub open spec fn step(self, pen: Pen, ch: char) -> Pen {
        if ch == '\n' {
            Pen {
                x: 0,
                y: pen.y + self.size,
                width: larger(pen.width, pen.x),
                height: pen.height,
                last: None,
            }
        } else {
            match character_of(self.characters, ch) {
                Some(c) => {
                    let k = self.kerning(pen.last, c.index);
                    Pen {
                        x: pen.x + k.0 + whole_pixels(c.advance_x),
                        y: pen.y + k.1 + whole_pixels(c.advance_y),
                        width: pen.width,
                        height: larger(pen.height, height_pixels(c.height)),
                        last: Some(c.index),
                    }
                },
                None => pen,
            }
        }
    }

    /// The pen after a text.
    pub open spec fn pen(self, text: Seq<char>) -> Pen
        decreases text.len(),
    {
        if text.len() == 0 {
            Pen { x: 0, y: 0, width: 0, height: 0, last: None }
        } else {
            self.step(self.pen(text.drop_last()), text.last())
        }
    }

    /// The glyph that a character leaves where the pen finds it, if it leaves one.
    pub open spec fn glyph(self, pen: Pen, ch: char) -> Option<Glyph> {
        if ch == '\n' {
            None
        } else {
            match character_of(self.characters, ch) {
                Some(c) => {
                    let k = self.kerning(pen.last, c.index);
                    Some(
                        Glyph {
                            ch,
                            x: (pen.x + k.0 + c.left) as i128,
                            y: (pen.y + k.1 - c.top) as i128,
                        },
                    )
                },
                None => None,
            }
        }
    }

    /// The glyphs of a text, in the order of its characters.
    pub open spec fn glyphs(self, text: Seq<char>) -> Seq<Glyph>
        decreases text.len(),
    {
        if text.len() == 0 {
            Seq::empty()
        } else {
            let before = self.glyphs(text.drop_last());
            match self.glyph(self.pen(text.drop_last()), text.last()) {
                Some(g) => before.push(g),
                None => before,
            }
        }
    }

    /// The width of a text, and the place of its last line less the height of its
    /// tallest character.
    pub open spec fn extent(self, text: Seq<char>) -> (int, int) {
        let pen = self.pen(text);
        (larger(pen.width, pen.x), pen.y - pen.height)
    }

    /// The first thing that the layout of a text needs and that was not loaded.
    pub open spec fn missing(self, text: Seq<char>) -> Option<Missing>
        decreases text.len(),
    {
        if text.len() == 0 {
            None
        } else {
            match self.missing(text.drop_last()) {
                Some(m) => Some(m),
                None => if text.last() == '\n' {
                    None
                } else {
                    match character_of(self.characters, text.last()) {
                        None => Some(Missing::Character(text.last())),
                        Some(c) => match self.pen(text.drop_last()).last {
                            Some(left) => if kerning_of(self.kernings, left, c.index) is None {
                                Some(Missing::Kerning(left, c.index))
                            } else {
                                None
                            },
                            None => None,
                        },
                    }
                },
            }
        }
    }
}

/// Whether a coordinate is within what a text of `n` characters can reach.
pub open spec fn reachable(v: int, n: nat) -> bool {
    -(n * 0x2_0000_0000_0000) - 0x8000_0000 <= v <= n * 0x2_0000_0000_0000
}

/// The move that puts a text of the given extent at its anchor.
pub open spec fn anchor_offset(extent: (int, int), hor: AnchorHor, vert: AnchorVert) -> (int, int) {
    (
        match hor {
            AnchorHor::Left => 0,
            AnchorHor::Center => (-extent.0) / 2,
            AnchorHor::Right => -extent.0,
        },
        match vert {
            AnchorVert::Bottom => 0,
            AnchorVert::Middle => -(extent.1 / 2),
            AnchorVert::Top => -extent.1,
        },
    )
}

/// The glyphs moved by `dx` and `dy`.
pub open spec fn shifted(glyphs: Seq<Glyph>, dx: int, dy: int) -> Seq<Glyph> {
    Seq::new(
        glyphs.len(),
        |i: int| Glyph { ch: glyphs[i].ch, x: (glyphs[i].x + dx) as i128, y: (glyphs[i].y + dy) as i128 },
    )
}

/// The whole pixels of a length in 65536ths of a pixel.
fn pixels(v: i64) -> (r: i64)
    ensures
        r == whole_pixels(v),
        -0x8000_0000_0000 <= r < 0x8000_0000_0000,
{
    div_floor_exec(v as i128, 65536) as i64
}

/// The whole pixels of a height in 64ths of a pixel.
fn height_of(h: i64) -> (r: i32)
    ensures
        r == height_pixels(h),
{
    let whole: i64 = if h >= 0 {
        h / 64
    } else if h == i64::MIN {
        -0x200_0000_0000_0000
    } else {
        -((-h) / 64)
    };
    if whole > i32::MAX as i64 {
        i32::MAX
    } else if whole < i32::MIN as i64 {
        i32::MIN
    } else {
        whole as i32
    }
}

/// Lays out text from the metrics that were loaded into it.
pub struct TextDrawer {
    size: u32,
    characters: HashMap<u32, Character>,
    kernings: HashMap<u64, Kerning>,
}

impl View for TextDrawer {
    type V = TextDrawerView;

    closed spec fn view(&self) -> TextDrawerView {
        TextDrawerView {
            size: self.size as nat,
            characters: self.characters@,
            kernings: self.kernings@,
        }
    }
}

/// The key of a pair of glyphs.
fn key_of(left: u32, right: u32) -> (key: u64)
    ensures
        key == pair_key(left, right),
{
    (left as u64) * 0x1_0000_0000 + right as u64
}

impl TextDrawer {
    /// A text drawer for lines `size` pixels apart, with nothing loaded.
    pub fn new(size: u32) -> (drawer: TextDrawer)
        ensures
            drawer@ == (TextDrawerView {
                size: size as nat,
                characters: Map::empty(),
                kernings: Map::empty(),
            }),
    {
        TextDrawer { size, characters: HashMap::new(), kernings: HashMap::new() }
    }

    /// Loads the metrics of a character; they replace what was loaded for it before.
    pub fn load_character(&mut self, character: Character)
        ensures
            final(self)@ == (TextDrawerView {
                characters: old(self)@.characters.insert(character.ch as u32, character),
                ..old(self)@
            }),
    {
        self.characters.insert(character.ch as u32, character);
    }

    /// Loads the kerning of a pair of glyphs; it replaces what was loaded for the pair before.
    pub fn load_kerning(&mut self, kerning: Kerning)
        ensures
            final(self)@ == (TextDrawerView {
                kernings: old(self)@.kernings.insert(
                    pair_key(kerning.left, kerning.right),
                    kerning,
                ),
                ..old(self)@
            }),
    {
        self.kernings.insert(key_of(kerning.left, kerning.right), kerning);
    }

    /// The metrics loaded for a character.
    fn find_character(&self, ch: char) -> (r: Option<Character>)
        ensures
            r == character_of(self@.characters, ch),
    {
        match self.characters.get(&(ch as u32)) {
            Some(c) => Some(*c),
            None => None,
        }
    }

    /// The kerning loaded for a pair of glyphs.
    fn find_kerning(&self, left: u32, right: u32) -> (r: Option<Kerning>)
        ensures
            r == kerning_of(self@.kernings, left, right),
    {
        match self.kernings.get(&key_of(left, right)) {
            Some(k) => Some(*k),
            None => None,
        }
    }

    /// The move of the pen between the glyph drawn last and the glyph `index`.
    fn pair_kerning(&self, last: Option<u32>, index: u32) -> (k: (i64, i64))
        ensures
            (k.0 as int, k.1 as int) == self@.kerning(last, index),
            -0x8000_0000_0000 <= k.0 < 0x8000_0000_0000,
            -0x8000_0000_0000 <= k.1 < 0x8000_0000_0000,
    {
        match last {
            Some(left) => match self.find_kerning(left, index) {
                Some(k) => (pixels(k.x), pixels(k.y)),
                None => (0, 0),
            },
            None => (0, 0),
        }
    }

    /// The first character or kerning that the layout of `text` needs and that was
    /// not loaded; `None` when the text is ready to be laid out.
    pub fn missing(&self, text: &String) -> (r: Option<Missing>)
        ensures
            r == self@.missing(text@),
    {
        let n: usize = text.as_str().unicode_len();
        let mut last: Option<u32> = None;
        let mut i: usize = 0;
        while i < n
            invariant
                n == text@.len(),
                i <= n,
                self@.missing(text@.take(i as int)) is None,
                last == self@.pen(text@.take(i as int)).last,
            decreases n - i,
        {
            let ch: char = text.as_str().get_char(i);
            proof {
                assert(text@.take(i + 1).drop_last() =~= text@.take(i as int));
                assert(text@.take(i + 1).last() == ch);
            }
            if ch == '\n' {
                last = None;
            } else {
                match self.find_character(ch) {
                    None => {
                        proof {
                            lemma_missing_stays(self@, text@, i + 1);
                        }
                        return Some(Missing::Character(ch));
                    },
                    Some(c) => {
                        match last {
                            Some(left) => {
                                if self.find_kerning(left, c.index).is_none() {
                                    proof {
                                        lemma_missing_stays(self@, text@, i + 1);
                                    }
                                    return Some(Missing::Kerning(left, c.index));
                                }
                            },
                            None => {},
                        }
                        last = Some(c.index);
                    },
                }
            }
            i = i + 1;
        }
        assert(text@.take(n as int) =~= text@);
        None
    }

    /// Runs the pen over `text`. The result holds the extent of the text and, where
    /// `draw` is set, the places of its glyphs.
    pub fn render_raw(&self, text: &String, draw: bool) -> (layout: Layout)
        ensures
            (layout.width as int, layout.height as int) == self@.extent(text@),
            layout.glyphs@ == if draw {
                self@.glyphs(text@)
            } else {
                Seq::empty()
            },
            text@.len() <= usize::MAX,
            reachable(layout.width as int, text@.len()),
            reachable(layout.height as int, text@.len()),
            forall|j: int|
                0 <= j < layout.glyphs@.len() ==> reachable(
                    (#[trigger] layout.glyphs@[j]).x as int,
                    text@.len(),
                ) && reachable(layout.glyphs@[j].y as int, text@.len()),
    {
        let n: usize = text.as_str().unicode_len();
        let mut x: i128 = 0;
        let mut y: i128 = 0;
        let mut width: i128 = 0;
        let mut height: i128 = 0;
        let mut last: Option<u32> = None;
        let mut glyphs: Vec<Glyph> = Vec::new();
        let mut i: usize = 0;
        while i < n
            invariant
                n == text@.len(),
                i <= n,
                self@.pen(text@.take(i as int)) == (Pen {
                    x: x as int,
                    y: y as int,
                    width: width as int,
                    height: height as int,
                    last,
                }),
                glyphs@ == if draw {
                    self@.glyphs(text@.take(i as int))
                } else {
                    Seq::empty()
                },
                -(i * 0x2_0000_0000_0000) <= x <= i * 0x2_0000_0000_0000,
                -(i * 0x2_0000_0000_0000) <= y <= i * 0x2_0000_0000_0000,
                -(i * 0x2_0000_0000_0000) <= width <= i * 0x2_0000_0000_0000,
                0 <= height <= 0x7fff_ffff,
                forall|j: int|
                    0 <= j < glyphs@.len() ==> reachable((#[trigger] glyphs@[j]).x as int, i as nat)
                        && reachable(glyphs@[j].y as int, i as nat),
            decreases n - i,
        {
            let ch: char = text.as_str().get_char(i);
            proof {
                assert(text@.take(i + 1).drop_last() =~= text@.take(i as int));
                assert(text@.take(i + 1).last() == ch);
            }
            if ch == '\n' {
                if width < x {
                    width = x;
                }
                x = 0;
                y = y + self.size as i128;
                last = None;
            } else {
                match self.find_character(ch) {
                    Some(c) => {
                        let k: (i64, i64) = self.pair_kerning(last, c.index);
                        let tall: i128 = height_of(c.height) as i128;
                        if draw {
                            glyphs.push(
                                Glyph {
                                    ch,
                                    x: x + k.0 as i128 + c.left as i128,
                                    y: y + k.1 as i128 - c.top as i128,
                                },
                            );
                        }
                        x = x + k.0 as i128 + pixels(c.advance_x) as i128;
                        y = y + k.1 as i128 + pixels(c.advance_y) as i128;
                        if height < tall {
                            height = tall;
                        }
                        last = Some(c.index);
                    },
                    None => {},
                }
            }
            i = i + 1;
        }
        assert(text@.take(n as int) =~= text@);
        if width < x {
            width = x;
        }
        Layout { width, height: y - height, glyphs }
    }

    /// The places of the glyphs of `text`, with respect to the point that the text is
    /// anchored at.
    pub fn render(&self, text: &String, hor: AnchorHor, vert: AnchorVert) -> (glyphs: Vec<Glyph>)
        ensures
            ({
                let offset = anchor_offset(self@.extent(text@), hor, vert);
                glyphs@ == shifted(self@.glyphs(text@), offset.0, offset.1)
            }),
    {
        let layout: Layout = self.render_raw(text, true);
        let dx: i128 = match hor {
            AnchorHor::Left => 0,
            AnchorHor::Center => div_floor_exec(-layout.width, 2),
            AnchorHor::Right => -layout.width,
        };
        let dy: i128 = match vert {
            AnchorVert::Bottom => 0,
            AnchorVert::Middle => -div_floor_exec(layout.height, 2),
            AnchorVert::Top => -layout.height,
        };
        let mut glyphs: Vec<Glyph> = Vec::new();
        let mut i: usize = 0;
        while i < layout.glyphs.len()
            invariant
                i <= layout.glyphs.len(),
                glyphs@.len() == i,
                text@.len() <= usize::MAX,
                reachable(-dx, text@.len() + 1),
                reachable(-dy, text@.len() + 1),
                forall|j: int|
                    0 <= j < layout.glyphs@.len() ==> reachable(
                        (#[trigger] layout.glyphs@[j]).x as int,
                        text@.len(),
                    ) && reachable(layout.glyphs@[j].y as int, text@.len()),
                forall|j: int|
                    0 <= j < i ==> #[trigger] glyphs@[j] == (Glyph {
                        ch: layout.glyphs@[j].ch,
                        x: (layout.glyphs@[j].x + dx) as i128,
                        y: (layout.glyphs@[j].y + dy) as i128,
                    }),
            decreases layout.glyphs.len() - i,
        {
            let g: Glyph = layout.glyphs[i];
            glyphs.push(Glyph { ch: g.ch, x: g.x + dx, y: g.y + dy });
            i = i + 1;
        }
        assert(glyphs@ =~= shifted(layout.glyphs@, dx as int, dy as int));
        glyphs
    }
}

/// Where a start of a text misses something, the text misses the same thing.
proof fn lemma_missing_stays(font: TextDrawerView, text: Seq<char>, i: int)
    requires
        0 <= i <= text.len(),
        font.missing(text.take(i)) is Some,
    ensures
        font.missing(text) == font.missing(text.take(i)),
    decreases text.len() - i,
{
    if i < text.len() {
        assert(text.take(i + 1).drop_last() =~= text.take(i));
        lemma_missing_stays(font, text, i + 1);
    } else {
        assert(text.take(i) =~= text);
    }
}

} // verus!
