use vstd::prelude::*;

verus! {

/// What a screen rectangle shows: a texture, a character of a font, or a flat color.
#[derive(PartialEq, Eq, Structural, Debug, Clone, Copy, Hash)]
pub enum TextureOrChar {
    Texture(usize),
    Char(usize, char),
    Color,
}

impl TextureOrChar {
    /// The resource id that the rectangle samples: the texture's, or the font's.
    pub open spec fn spec_id(&self) -> Option<usize> {
        match self {
            TextureOrChar::Char(id, _) => Some(*id),
            TextureOrChar::Texture(id) => Some(*id),
            TextureOrChar::Color => None,
        }
    }

    /// The character that the rectangle shows, if it shows one.
    pub open spec fn spec_char(&self) -> Option<char> {
        match self {
            TextureOrChar::Char(_, c) => Some(*c),
            _ => None,
        }
    }

    /// The id of the texture or font to sample; `None` for a flat color.
    pub fn id(&self) -> (id: Option<usize>)
        ensures
            id == self.spec_id(),
            *self matches TextureOrChar::Texture(t) ==> id == Some(t),
            *self matches TextureOrChar::Char(f, _) ==> id == Some(f),
            *self is Color ==> id is None,
    {
        match self {
            TextureOrChar::Char(id, _) => Some(*id),
            TextureOrChar::Texture(id) => Some(*id),
            _ => None,
        }
    }

    /// The character to draw; `None` unless the rectangle shows a character.
    pub fn char(&self) -> (c: Option<char>)
        ensures
            c == self.spec_char(),
            *self matches TextureOrChar::Char(_, ch) ==> c == Some(ch),
            !(*self is Char) ==> c is None,
    {
        match self {
            TextureOrChar::Char(_, c) => Some(*c),
            _ => None,
        }
    }
}

/// A rectangle that shows a character always names the font it comes from.
pub proof fn lemma_char_has_font(t: TextureOrChar)
    ensures
        t.spec_char() is Some ==> t.spec_id() is Some,
{
}

/// What an object of the world is drawn as.
#[derive(PartialEq, Eq, Structural, Debug, Clone, Copy, Hash)]
pub enum EntityKind {
    Mesh,
    ScreenRect { x: i32, y: i32, width: i32, height: i32, tex_or_char: TextureOrChar },
}

/// A character placed on the screen, in pixels.
pub struct ScreenText {
    pub x: i32,
    pub y: i32,
    pub width: i32,
    pub height: i32,
    pub c: char,
    pub font: usize,
}

} // verus!
