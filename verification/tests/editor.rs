use shotlite::editor::{
    draw_selection_outline, edit_image, edit_output_path, editor_drag, editor_session, editor_step, EditorError,
    EditorOperation, EditorSession, EditorStep,
};
use shotlite::interactive::Point;
use shotlite::pixels::{Rgba, RgbaImage};
use shotlite::rect::{Rect, RedactError};

fn test_image() -> RgbaImage {
    let mut image = RgbaImage::from_pixel(4, 3, Rgba::new(255, 255, 255, 255));
    image.put_pixel(0, 0, Rgba::new(10, 20, 30, 255));
    image
}

#[test]
fn editor_operations_change_only_the_selection() {
    let rect = Rect { x: 1, y: 1, width: 2, height: 1 };

    let redacted = edit_image(EditorOperation::Redact, test_image(), rect).unwrap();
    assert_eq!(redacted.get_pixel(1, 1), Rgba::new(0, 0, 0, 255));
    assert_eq!(redacted.get_pixel(0, 0), Rgba::new(10, 20, 30, 255));

    let highlighted = edit_image(EditorOperation::Highlight, test_image(), rect).unwrap();
    assert_eq!(highlighted.get_pixel(2, 1), Rgba::new(255, 242, 127, 255));
    assert_eq!(highlighted.get_pixel(3, 1), Rgba::new(255, 255, 255, 255));

    let cropped = edit_image(EditorOperation::Crop, test_image(), rect).unwrap();
    assert_eq!((cropped.width(), cropped.height()), (2, 1));
}

#[test]
fn editor_refuses_a_selection_outside_the_image() {
    let error = edit_image(EditorOperation::Crop, test_image(), Rect { x: 3, y: 0, width: 2, height: 1 }).unwrap_err();

    assert!(matches!(error, RedactError::RectOutOfBounds { image_width: 4, image_height: 3 }));
}

#[test]
fn editor_output_names_follow_the_operation() {
    assert_eq!(edit_output_path(EditorOperation::Redact, "shot.png", None), "shot-redacted.png");
    assert_eq!(edit_output_path(EditorOperation::Highlight, "shot.png", None), "shot-highlighted.png");
    assert_eq!(edit_output_path(EditorOperation::Crop, "shot.png", None), "shot-cropped.png");
    assert_eq!(edit_output_path(EditorOperation::Crop, "shot.png", Some("out.png")), "out.png");
}

#[test]
fn editor_error_messages() {
    assert_eq!(EditorError::Canceled.message(), "editor was closed without saving");
    assert_eq!(
        EditorError::Open { path: "missing.png".to_string(), reason: "not found".to_string() }.message(),
        "failed to open missing.png: not found"
    );
    assert_eq!(
        EditorError::Redact(RedactError::RectOutOfBounds { image_width: 4, image_height: 3 }).message(),
        "rect is outside image bounds (4x3)"
    );
}

#[test]
fn selection_outline_is_a_frame() {
    let mut buffer = vec![0u32; 5 * 4];

    draw_selection_outline(&mut buffer, 5, 4, Rect { x: 1, y: 0, width: 3, height: 3 });

    let c = 0xffd000;
    assert_eq!(
        buffer,
        [
            0, c, c, c, 0, //
            0, c, 0, c, 0, //
            0, c, c, c, 0, //
            0, 0, 0, 0, 0,
        ]
    );
}

#[test]
fn selection_outline_is_clipped_to_the_window() {
    let mut buffer = vec![7u32; 3 * 3];

    draw_selection_outline(&mut buffer, 3, 3, Rect { x: -2, y: 1, width: 10, height: 10 });

    let c = 0xffd000;
    assert_eq!(buffer, [7, 7, 7, c, c, c, c, c, c]);
}

#[test]
fn selection_outside_the_window_draws_nothing() {
    let mut buffer = vec![7u32; 3 * 3];

    draw_selection_outline(&mut buffer, 3, 3, Rect { x: 5, y: 0, width: 2, height: 2 });

    assert_eq!(buffer, [7; 9]);
}

#[test]
fn a_drag_spans_from_where_it_began() {
    let session = editor_session();
    let (session, spanned) = editor_drag(session, true, Some(Point { x: 10, y: 10 }));
    assert_eq!(spanned, Some(None));
    let (session, spanned) = editor_drag(session, true, Some(Point { x: 4, y: 30 }));
    assert_eq!(spanned, Some(Some(Rect { x: 4, y: 10, width: 6, height: 20 })));
    let (session, spanned) = editor_drag(session, false, Some(Point { x: 50, y: 50 }));
    assert_eq!(spanned, None);
    assert_eq!(session.drag_start, None);
}

#[test]
fn edit_keys_act_only_on_a_selection() {
    let empty = editor_session();
    assert_eq!(editor_step(empty, true, false, Some(EditorOperation::Crop)), EditorStep::Continue);
    assert_eq!(editor_step(empty, false, false, None), EditorStep::Cancel);
    assert_eq!(editor_step(empty, true, true, None), EditorStep::Cancel);

    let rect = Rect { x: 1, y: 1, width: 2, height: 2 };
    let selected = EditorSession { drag_start: None, selection: Some(rect) };
    assert_eq!(editor_step(selected, true, false, Some(EditorOperation::Redact)), EditorStep::Apply(EditorOperation::Redact, rect));
    assert_eq!(editor_step(selected, true, false, None), EditorStep::Continue);
}

#[test]
fn editor_output_goes_next_to_a_nested_input() {
    let expected = std::path::PathBuf::from("shots").join("day.1-highlighted.png");

    assert_eq!(edit_output_path(EditorOperation::Highlight, "shots/day.1.png", None), expected.to_string_lossy());
}
