use std::collections::BTreeMap;
use vstd::prelude::*;

verus! {

broadcast use {vstd::std_specs::btree::group_btree_axioms, vstd::laws_cmp::group_laws_cmp};

/// Where one glyph sits in a font's texture atlas, and how to place it on a line.
#[derive(Debug, Clone, Copy, PartialEq, Eq, Structural)]
pub struct GlyphInfo {
    pub x: u32,
    pub y: u32,
    pub width: u32,
    pub height: u32,
    pub origin_x: i32,
    pub origin_y: i32,
    pub advance: i32,
}

/// A bitmap font: its atlas size and the glyph of each character it has,
/// keyed by the character's Unicode scalar value.
#[derive(Debug, Clone)]
pub struct FontInfo {
    pub name: String,
    pub size: u32,
    pub bold: bool,
    pub italic: bool,
    pub width: u32,
    pub height: u32,
    pub characters: BTreeMap<u32, GlyphInfo>,
}

/// A rectangle of a texture to sample, with the size of the whole texture.
#[derive(Debug, Clone, Copy, PartialEq, Eq, Structural)]
pub struct TextureSampleRange {
    pub origin_x: u32,
    pub origin_y: u32,
    pub sample_width: u32,
    pub sample_height: u32,
    pub image_width: u32,
    pub image_height: u32,
}

/// The rectangle of `glyph` in an atlas of `width` by `height` texels.
pub open spec fn glyph_sample_range(glyph: GlyphInfo, width: u32, height: u32) -> TextureSampleRange {
    TextureSampleRange {
        origin_x: glyph.x,
        origin_y: glyph.y,
        sample_width: glyph.width,
        sample_height: glyph.height,
        image_width: width,
        image_height: height,
    }
}

/// The whole of a texture of `width` by `height` texels.
pub open spec fn whole_texture_range(width: u32, height: u32) -> TextureSampleRange {
    TextureSampleRange {
        origin_x: 0,
        origin_y: 0,
        sample_width: width,
        sample_height: height,
        image_width: width,
        image_height: height,
    }
}

/// The lookup key of a character is its own scalar value: the font has a range for
/// `c` exactly when its characters hold the key `c as u32`, and the range is that
/// entry's rectangle in an atlas of the font's size.
pub proof fn lemma_sample_range_of_own_key(font: FontInfo, c: char)
    ensures
        font.characters@.contains_key(c as u32) ==> font.glyph(c) == Some(
            font.characters@[c as u32],
        ),
        !font.characters@.contains_key(c as u32) ==> font.glyph(c) is None,
        forall|g: GlyphInfo, w: u32, h: u32|
            #[trigger] glyph_sample_range(g, w, h) == (TextureSampleRange {
                origin_x: g.x,
                origin_y: g.y,
                sample_width: g.width,
                sample_height: g.height,
                image_width: w,
                image_height: h,
            }),
{
}

/// A whole-texture range starts at the origin and spans the texture.
pub proof fn lemma_whole_texture_range(w: u32, h: u32)
    ensures
        whole_texture_range(w, h) == (TextureSampleRange {
            origin_x: 0,
            origin_y: 0,
            sample_width: w,
            sample_height: h,
            image_width: w,
            image_height: h,
        }),
{
}

impl FontInfo {
    /// The glyph that the font holds for `c`, if it has one.
    pub open spec fn glyph(&self, c: char) -> Option<GlyphInfo> {
        if self.characters@.contains_key(c as u32) {
            Some(self.characters@[c as u32])
        } else {
            None
        }
    }

    /// The part of the font's atlas that holds `c`, or `None` when the font has no
    /// glyph for `c`.
    pub fn get_sample_range(&self, c: char) -> (range: Option<TextureSampleRange>)
        ensures
            range == (match self.glyph(c) {
                Some(g) => Some(glyph_sample_range(g, self.width, self.height)),
                None => None,
            }),
            range is Some <==> self.characters@.contains_key(c as u32),
            range matches Some(r) ==> {
                &&& r.origin_x == self.characters@[c as u32].x
                &&& r.origin_y == self.characters@[c as u32].y
                &&& r.sample_width == self.characters@[c as u32].width
                &&& r.sample_height == self.characters@[c as u32].height
                &&& r.image_width == self.width
                &&& r.image_height == self.height
            },
    {
        let key = c as u32;
        match self.characters.get(&key) {
            Some(code_point) => Some(
                TextureSampleRange {
                    origin_x: code_point.x,
                    origin_y: code_point.y,
                    sample_width: code_point.width,
                    sample_height: code_point.height,
                    image_width: self.width,
                    image_height: self.height,
                },
            ),
            None => None,
        }
    }
}

impl TextureSampleRange {
    /// The range that covers a whole texture of `size.0` by `size.1` texels, as a
    /// sprite material samples its image.
    pub fn whole_texture(size: (u32, u32)) -> (range: TextureSampleRange)
        ensures
            range == whole_texture_range(size.0, size.1),
    {
        TextureSampleRange {
            origin_x: 0,
            origin_y: 0,
            sample_width: size.0,
            sample_height: size.1,
            image_width: size.0,
            image_height: size.1,
        }
    }
}

} // verus!
