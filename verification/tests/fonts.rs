use std::collections::BTreeMap;
use wgpu_learning::rend::font::{FontInfo, GlyphInfo, TextureSampleRange};
use wgpu_learning::rend::text_pipeline::{text_instance_count, GpuSampleInfo, MAX_CHARS_PER_PASS};

fn glyph(x: u32, y: u32, width: u32, height: u32) -> GlyphInfo {
    GlyphInfo { x, y, width, height, origin_x: -1, origin_y: 12, advance: 9 }
}

fn consolas() -> FontInfo {
    let mut characters = BTreeMap::new();
    characters.insert('a' as u32, glyph(10, 20, 8, 11));
    characters.insert(' ' as u32, glyph(0, 0, 0, 0));
    characters.insert('é' as u32, glyph(40, 2, 7, 15));
    FontInfo {
        name: "consolas".to_string(),
        size: 32,
        bold: false,
        italic: false,
        width: 512,
        height: 256,
        characters,
    }
}

#[test]
fn sample_range_of_a_known_glyph() {
    let range = consolas().get_sample_range('a').unwrap();
    assert_eq!(
        range,
        TextureSampleRange {
            origin_x: 10,
            origin_y: 20,
            sample_width: 8,
            sample_height: 11,
            image_width: 512,
            image_height: 256,
        }
    );
}

#[test]
fn sample_range_of_a_non_ascii_glyph() {
    let range = consolas().get_sample_range('é').unwrap();
    assert_eq!((range.origin_x, range.origin_y), (40, 2));
    assert_eq!((range.sample_width, range.sample_height), (7, 15));
}

#[test]
fn sample_range_of_a_missing_glyph() {
    assert!(consolas().get_sample_range('z').is_none());
    assert!(consolas().get_sample_range('\n').is_none());
}

#[test]
fn sprite_samples_its_whole_texture() {
    assert_eq!(
        TextureSampleRange::whole_texture((640, 480)),
        TextureSampleRange {
            origin_x: 0,
            origin_y: 0,
            sample_width: 640,
            sample_height: 480,
            image_width: 640,
            image_height: 480,
        }
    );
}

#[test]
fn gpu_sample_info_is_padded() {
    let range = consolas().get_sample_range('a').unwrap();
    let info = GpuSampleInfo::from_range(&range);
    assert_eq!(
        info,
        GpuSampleInfo {
            origin_x: 10,
            origin_y: 20,
            sample_width: 8,
            sample_height: 11,
            image_width: 512,
            image_height: 256,
            _pad1: 0,
            _pad2: 0,
        }
    );
}

#[test]
fn text_pass_is_capped() {
    assert_eq!(text_instance_count(0), 0);
    assert_eq!(text_instance_count(10), 10);
    assert_eq!(text_instance_count(MAX_CHARS_PER_PASS), 480);
    assert_eq!(text_instance_count(100_000), 480);
}
