use wgpu_learning::model::game_objects::TextureOrChar;
use wgpu_learning::rend::ubo::UboLayout;
use wgpu_learning::renderer_backend::renderer::{
    render_plan, resize_target, DrawStep, Resources, ViewSelector,
};

#[test]
fn views_cycle_forward_and_back() {
    assert_eq!(ViewSelector::MapView.next_cycle(), ViewSelector::Lava);
    assert_eq!(ViewSelector::Lava.next_cycle(), ViewSelector::World3d);
    assert_eq!(ViewSelector::World3d.next_cycle(), ViewSelector::MapView);
    assert_eq!(ViewSelector::MapView.previous_cycle(), ViewSelector::World3d);
    for v in [ViewSelector::MapView, ViewSelector::Lava, ViewSelector::World3d] {
        assert_eq!(v.next_cycle().previous_cycle(), v);
        assert_eq!(v.previous_cycle().next_cycle(), v);
        assert_eq!(v.next_cycle().next_cycle().next_cycle(), v);
    }
}

#[test]
fn resize_only_to_a_visible_size() {
    assert_eq!(resize_target((800, 600)), Some((800, 600)));
    assert_eq!(resize_target((0, 600)), None);
    assert_eq!(resize_target((800, -1)), None);
    assert_eq!(resize_target((i32::MAX, 1)), Some((i32::MAX as u32, 1)));
}

#[test]
fn resources_share_one_id_space() {
    let mut store: Resources<&str, u32, String> = Resources::new();
    assert_eq!(store.peek_next_id(), 0);
    let quad = store.spawn_mesh("quad");
    let sprite = store.add_texture(7);
    let font = store.add_font("consolas".to_string());
    let cube = store.spawn_mesh("cube");
    assert_eq!((quad, sprite, font, cube), (0, 1, 2, 3));
    assert_eq!(store.mesh(quad), Some(&"quad"));
    assert_eq!(store.mesh(cube), Some(&"cube"));
    assert_eq!(store.mesh(sprite), None);
    assert_eq!(store.texture(sprite), Some(&7));
    assert_eq!(store.font(font).map(|f| f.as_str()), Some("consolas"));
    assert_eq!(store.font(quad), None);
    assert_eq!(store.peek_next_id(), 4);
}

#[test]
fn texture_or_char_parts() {
    assert_eq!(TextureOrChar::Texture(4).id(), Some(4));
    assert_eq!(TextureOrChar::Texture(4).char(), None);
    assert_eq!(TextureOrChar::Char(2, 'q').id(), Some(2));
    assert_eq!(TextureOrChar::Char(2, 'q').char(), Some('q'));
    assert_eq!(TextureOrChar::Color.id(), None);
    assert_eq!(TextureOrChar::Color.char(), None);
}

#[test]
fn uniform_slots_follow_device_alignment() {
    let layout = UboLayout::new(256, 64, 10);
    assert_eq!(layout.alignment, 256);
    assert_eq!(layout.buffer_size(), 2560);
    assert_eq!(layout.offset(0), 0);
    assert_eq!(layout.offset(3), 768);
    assert_eq!(layout.offset(9) + 64, 2368);
}

#[test]
fn uniform_slots_at_least_one_element_wide() {
    let layout = UboLayout::new(16, 64, 4);
    assert_eq!(layout.alignment, 64);
    assert_eq!(layout.buffer_size(), 256);
    assert_eq!(layout.offset(1), 64);
    let empty = UboLayout::new(256, 64, 0);
    assert_eq!(empty.buffer_size(), 0);
}

#[test]
fn frame_passes_per_view() {
    assert_eq!(render_plan(ViewSelector::MapView, false, (800, 600)), Some(vec![DrawStep::MapQuad]));
    assert_eq!(render_plan(ViewSelector::Lava, true, (800, 600)), Some(vec![DrawStep::LavaQuad]));
    assert_eq!(
        render_plan(ViewSelector::World3d, true, (800, 600)),
        Some(vec![DrawStep::World3dToScreen])
    );
    assert_eq!(
        render_plan(ViewSelector::World3d, false, (800, 600)),
        Some(vec![DrawStep::World3dToIntermediate, DrawStep::Circles, DrawStep::Ui])
    );
}

#[test]
fn no_frame_for_a_window_without_area() {
    assert_eq!(render_plan(ViewSelector::World3d, false, (0, 600)), None);
    assert_eq!(render_plan(ViewSelector::MapView, false, (800, 0)), None);
}
