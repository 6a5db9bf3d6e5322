use shotlite::pixels::{Rgba, RgbaImage};
use shotlite::preview::{
    button_at, preview_action_at, preview_action_from_keys, preview_view_size, PreviewAction, PreviewKey,
    PreviewView,
};

fn preview_action_from_click(view: &PreviewView, x: f32, y: f32) -> Option<Option<PreviewAction>> {
    if x < 0.0 || y < view.image_height as f32 {
        return None;
    }
    preview_action_at(*view, x as usize, y as usize)
}

#[test]
fn preview_keeps_small_images_at_original_size() {
    assert_eq!(
        preview_view_size(400, 300, 900, 700),
        PreviewView { width: 400, height: 348, image_height: 300, scale_percent: 100 }
    );
}

#[test]
fn preview_scales_large_images_down() {
    let view = preview_view_size(1920, 1080, 900, 700);

    assert_eq!(view.width, 883);
    assert_eq!(view.height, 544);
    assert_eq!(view.image_height, 496);
    assert_eq!(view.scale_percent, 46);
}

#[test]
fn preview_buffer_preserves_pixel_color_and_draws_action_bar() {
    let image = RgbaImage::from_pixel(2, 1, Rgba::new(10, 20, 30, 255));
    let view = PreviewView::new(&image);

    let buffer = view.buffer_for(&image);

    assert_eq!(buffer[0], 0x0a141e);
    assert_eq!(buffer[1], 0x0a141e);
    assert!(buffer[view.width * view.image_height..].contains(&0xf0f0f0));
}

#[test]
fn preview_keys_map_to_actions() {
    assert_eq!(preview_action_from_keys(&[PreviewKey::C]), Some(Some(PreviewAction::Copy)));
    assert_eq!(preview_action_from_keys(&[PreviewKey::P]), Some(Some(PreviewAction::CopyPath)));
    assert_eq!(preview_action_from_keys(&[PreviewKey::E]), Some(Some(PreviewAction::Edit)));
    assert_eq!(preview_action_from_keys(&[PreviewKey::O]), Some(Some(PreviewAction::Open)));
    assert_eq!(preview_action_from_keys(&[PreviewKey::R]), Some(Some(PreviewAction::Reveal)));
    assert_eq!(preview_action_from_keys(&[PreviewKey::Delete]), Some(Some(PreviewAction::Delete)));
    assert_eq!(preview_action_from_keys(&[PreviewKey::Escape]), Some(None));
}

#[test]
fn preview_escape_wins_when_multiple_keys_are_down() {
    assert_eq!(preview_action_from_keys(&[PreviewKey::Escape, PreviewKey::C]), Some(None));
}

#[test]
fn preview_clicks_map_to_visible_buttons() {
    let view = preview_view_size(500, 200, 900, 700);
    let y = view.image_height as f32 + 10.0;

    assert_eq!(preview_action_from_click(&view, 10.0, y), Some(Some(PreviewAction::Copy)));
    assert_eq!(preview_action_from_click(&view, 80.0, y), Some(Some(PreviewAction::CopyPath)));
    assert_eq!(preview_action_from_click(&view, 150.0, y), Some(Some(PreviewAction::Edit)));
    assert_eq!(preview_action_from_click(&view, 220.0, y), Some(Some(PreviewAction::Open)));
    assert_eq!(preview_action_from_click(&view, 300.0, y), Some(Some(PreviewAction::Reveal)));
    assert_eq!(preview_action_from_click(&view, 370.0, y), Some(Some(PreviewAction::Delete)));
    assert_eq!(preview_action_from_click(&view, 450.0, y), Some(None));
}

#[test]
fn preview_clicks_ignore_image_area_and_outside_window() {
    let view = preview_view_size(500, 200, 900, 700);

    assert_eq!(preview_action_from_click(&view, 10.0, 10.0), None);
    assert_eq!(preview_action_from_click(&view, 10.0, view.height as f32 + 1.0), None);
    assert_eq!(preview_action_from_click(&view, -1.0, 210.0), None);
}

#[test]
fn keys_that_ask_nothing_give_no_request() {
    assert_eq!(preview_action_from_keys(&[]), None);
    assert_eq!(preview_action_from_keys(&[PreviewKey::Other]), None);
    assert_eq!(preview_action_from_keys(&[PreviewKey::Other, PreviewKey::O]), Some(Some(PreviewAction::Open)));
}

#[test]
fn buttons_split_the_bar_evenly() {
    let view = preview_view_size(700, 100, 900, 700);
    let y = view.image_height;

    assert_eq!(button_at(view, 0, y).unwrap().index, 0);
    assert_eq!(button_at(view, 699, y).unwrap().index, 6);
    assert!(button_at(view, 700, y).is_none());
    assert!(button_at(view, 0, y - 1).is_none());
}
