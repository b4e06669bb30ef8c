use std::collections::HashMap;
use vstd::prelude::*;

verus! {

/// Where one character sits in a font's texture atlas, and how to place it on a line.
#[derive(Debug, Clone, Copy, PartialEq, Eq, Structural)]
pub struct CodePointInfo {
    pub x: u32,
    pub y: u32,
    pub width: u32,
    pub height: u32,
    pub origin_x: i32,
    pub origin_y: i32,
    pub advance: i32,
}

/// A bitmap font as its font-data file describes it: the atlas size and the glyph of
/// each character.
#[derive(Debug)]
pub struct FontInfo {
    pub name: String,
    pub size: u32,
    pub bold: bool,
    pub italic: bool,
    pub width: u32,
    pub height: u32,
    pub characters: HashMap<char, CodePointInfo>,
}

} // verus!
