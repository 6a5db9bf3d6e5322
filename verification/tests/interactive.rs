use shotlite::interactive::{
    lparam_point, overlay_start, overlay_step, rect_from_points, rgb, select_region, selection_frame,
    selection_result, InteractiveError, OverlayEffect, OverlayEvent,
};
use shotlite::rect::Rect;

#[test]
fn drag_corners_give_a_rectangle_in_screen_coordinates() {
    assert_eq!(rect_from_points((30, 40), (10, 5), 100, -50), Some(Rect { x: 110, y: -45, width: 20, height: 35 }));
    assert_eq!(rect_from_points((3, 4), (3, 9), 0, 0), None);
}

#[test]
fn mouse_parameters_are_signed_words() {
    assert_eq!(lparam_point(0x0002_0001), (1, 2));
    assert_eq!(lparam_point(0xffff_fffe), (-2, -1));
}

#[test]
fn a_drag_selects_a_region() {
    let state = overlay_start(-1920, 0);
    let (state, effect) = overlay_step(state, OverlayEvent::LeftDown { x: 10, y: 20 });
    assert_eq!(effect, OverlayEffect::CaptureMouse);
    let (state, effect) = overlay_step(state, OverlayEvent::MouseMove { x: 50, y: 60, left_held: true });
    assert_eq!(effect, OverlayEffect::Redraw);
    assert_eq!(selection_frame(state), Some((10, 20, 50, 60)));
    let (state, effect) = overlay_step(state, OverlayEvent::LeftUp { x: 50, y: 60 });
    assert_eq!(effect, OverlayEffect::ReleaseAndClose);

    assert_eq!(selection_result(state).unwrap(), Rect { x: -1910, y: 20, width: 40, height: 40 });
}

#[test]
fn escape_and_right_click_cancel() {
    let (state, effect) = overlay_step(overlay_start(0, 0), OverlayEvent::KeyDown { escape: true });
    assert_eq!(effect, OverlayEffect::Close);
    assert!(matches!(selection_result(state), Err(InteractiveError::Canceled)));

    let (state, effect) = overlay_step(overlay_start(0, 0), OverlayEvent::RightDown);
    assert_eq!(effect, OverlayEffect::Close);
    assert!(matches!(selection_result(state), Err(InteractiveError::Canceled)));

    let (state, effect) = overlay_step(overlay_start(0, 0), OverlayEvent::KeyDown { escape: false });
    assert_eq!(effect, OverlayEffect::Nothing);
    assert_eq!(state, overlay_start(0, 0));
}

#[test]
fn a_click_without_area_selects_nothing() {
    let (state, _) = overlay_step(overlay_start(0, 0), OverlayEvent::LeftDown { x: 5, y: 5 });
    let (state, _) = overlay_step(state, OverlayEvent::LeftUp { x: 5, y: 5 });

    assert!(matches!(selection_result(state), Err(InteractiveError::Canceled)));
}

#[test]
fn colorref_puts_red_low() {
    assert_eq!(rgb(0x12, 0x34, 0x56), 0x563412);
}

#[test]
fn builds_without_an_overlay_refuse_selection() {
    assert!(matches!(select_region(), Err(InteractiveError::Unsupported)));
}
