use vstd::prelude::*;

verus! {

/// An integer screen position, in pixels.
#[derive(Clone, Copy, PartialEq, Eq, Structural, Debug)]
pub struct Position {
    pub x: i32,
    pub y: i32,
}

impl Position {
    pub fn new(x: i32, y: i32) -> (r: Position)
        ensures
            r.x == x,
            r.y == y,
    {
        Position { x, y }
    }
}

/// An RGBA fill color.
#[derive(Clone, Copy, PartialEq, Eq, Structural, Debug)]
pub struct Color {
    pub r: u8,
    pub g: u8,
    pub b: u8,
    pub a: u8,
}

impl Color {
    pub fn rgba(r: u8, g: u8, b: u8, a: u8) -> (c: Color)
        ensures
            c == (Color { r, g, b, a }),
    {
        Color { r, g, b, a }
    }

    pub fn white() -> (c: Color)
        ensures
            c == (Color { r: 255, g: 255, b: 255, a: 255 }),
    {
        Color { r: 255, g: 255, b: 255, a: 255 }
    }
}

/// How an entry's text is drawn.
#[derive(Clone, Copy, PartialEq, Eq, Structural, Debug)]
pub enum TextStyle {
    Regular,
    Underlined,
}

/// The style of an entry: underlined exactly when it is the selected one.
pub open spec fn style_for(underline: bool) -> TextStyle {
    if underline {
        TextStyle::Underlined
    } else {
        TextStyle::Regular
    }
}

/// What an entry holds, as mathematical values.
pub struct EntryModel {
    pub caption: Seq<char>,
    pub font: Seq<char>,
    pub size: u32,
    pub position: Position,
    pub color: Color,
}

/// One selectable entry: a caption, the font it is drawn with, its point
/// size, its position relative to the menu, and its fill color.
pub struct MenuText {
    caption: String,
    font: String,
    size: u32,
    position: Position,
    text_color: Color,
}

impl View for MenuText {
    type V = EntryModel;

    closed spec fn view(&self) -> EntryModel {
        EntryModel {
            caption: self.caption@,
            font: self.font@,
            size: self.size,
            position: self.position,
            color: self.text_color,
        }
    }
}

/// One text draw: everything a render target needs to draw an entry.
pub struct TextDraw {
    pub caption: String,
    pub font: String,
    pub size: u32,
    pub x: i64,
    pub y: i64,
    pub color: Color,
    pub style: TextStyle,
}

/// `d` draws entry `e` at `e`'s offset from `base`, with the given style.
pub open spec fn draws(d: TextDraw, e: EntryModel, base: Position, underline: bool) -> bool {
    &&& d.caption@ == e.caption
    &&& d.font@ == e.font
    &&& d.size == e.size
    &&& d.x == e.position.x + base.x
    &&& d.y == e.position.y + base.y
    &&& d.color == e.color
    &&& d.style == style_for(underline)
}

impl MenuText {
    /// A placeholder entry: "Test." in "RedHatMono.ttf", size 30, white, at the origin.
    pub fn new() -> (r: MenuText)
        ensures
            r@.caption == "Test."@,
            r@.font == "RedHatMono.ttf"@,
            r@.size == 30,
            r@.position == (Position { x: 0, y: 0 }),
            r@.color == (Color { r: 255, g: 255, b: 255, a: 255 }),
    {
        MenuText {
            caption: "Test.".to_owned(),
            font: "RedHatMono.ttf".to_owned(),
            size: 30,
            position: Position::new(0, 0),
            text_color: Color::white(),
        }
    }

    pub fn with_params(
        caption: String,
        font: String,
        size: u32,
        position: Position,
        text_color: Color,
    ) -> (r: MenuText)
        ensures
            r@ == (EntryModel { caption: caption@, font: font@, size, position, color: text_color }),
    {
        MenuText { caption, font, size, position, text_color }
    }

    /// The draw of this entry placed relative to `base`, underlined or not.
    pub fn draw(&self, base: Position, underline: bool) -> (d: TextDraw)
        ensures
            draws(d, self@, base, underline),
    {
        let style = if underline {
            TextStyle::Underlined
        } else {
            TextStyle::Regular
        };
        TextDraw {
            caption: self.caption.clone(),
            font: self.font.clone(),
            size: self.size,
            x: self.position.x as i64 + base.x as i64,
            y: self.position.y as i64 + base.y as i64,
            color: self.text_color,
            style,
        }
    }

    pub fn get_caption(&self) -> (r: &String)
        ensures
            r@ == self@.caption,
    {
        &self.caption
    }

    pub fn get_font(&self) -> (r: &String)
        ensures
            r@ == self@.font,
    {
        &self.font
    }

    pub fn get_size(&self) -> (r: &u32)
        ensures
            *r == self@.size,
    {
        &self.size
    }

    pub fn get_position(&self) -> (r: &Position)
        ensures
            *r == self@.position,
    {
        &self.position
    }

    pub fn get_text_color(&self) -> (r: &Color)
        ensures
            *r == self@.color,
    {
        &self.text_color
    }
}

} // verus!
