use crate::rend::font::TextureSampleRange;
use vstd::prelude::*;

verus! {

/// The most characters that one text draw pass takes.
pub const MAX_CHARS_PER_PASS: usize = 480;

/// A texture sample range as the text shader reads it: six `u32`s padded to eight.
#[derive(PartialEq, Eq, Structural, Debug, Clone, Copy)]
pub struct GpuSampleInfo {
    pub origin_x: u32,
    pub origin_y: u32,
    pub sample_width: u32,
    pub sample_height: u32,
    pub image_width: u32,
    pub image_height: u32,
    pub _pad1: u32,
    pub _pad2: u32,
}

impl GpuSampleInfo {
    /// The GPU form of `range`, with zero padding.
    pub fn from_range(range: &TextureSampleRange) -> (info: GpuSampleInfo)
        ensures
            info == (GpuSampleInfo {
                origin_x: range.origin_x,
                origin_y: range.origin_y,
                sample_width: range.sample_width,
                sample_height: range.sample_height,
                image_width: range.image_width,
                image_height: range.image_height,
                _pad1: 0,
                _pad2: 0,
            }),
    {
        GpuSampleInfo {
            origin_x: range.origin_x,
            origin_y: range.origin_y,
            sample_width: range.sample_width,
            sample_height: range.sample_height,
            image_width: range.image_width,
            image_height: range.image_height,
            _pad1: 0,
            _pad2: 0,
        }
    }
}

/// How many character instances a text pass draws when asked for `n`: at most
/// `MAX_CHARS_PER_PASS`, the size of the pass's buffers.
pub fn text_instance_count(n: usize) -> (count: u32)
    ensures
        count == (if n < MAX_CHARS_PER_PASS {
            n
        } else {
            MAX_CHARS_PER_PASS
        }),
{
    if n < MAX_CHARS_PER_PASS {
        n as u32
    } else {
        MAX_CHARS_PER_PASS as u32
    }
}

} // verus!
