use shotlite::capture::{
    bounds_from_geometries, overlay_offsets, place_region, rect_inside_monitor, screenshot_filename, Bounds,
    CaptureError, LocalTimestamp, MonitorGeometry, RegionPlacement,
};
use shotlite::rect::Rect;

#[test]
fn filename_uses_expected_format() {
    let now = LocalTimestamp { year: 2026, month: 5, day: 9, hour: 14, minute: 3, second: 4 };

    assert_eq!(screenshot_filename(&now), "screenshot-20260509-140304.png");
}

#[test]
fn region_must_fit_inside_monitor() {
    let rect = Rect { x: 10, y: 20, width: 30, height: 40 };

    assert!(rect_inside_monitor(rect, 0, 0, 100, 100));
    assert!(!rect_inside_monitor(rect, 0, 0, 20, 100));
}

#[test]
fn region_can_fit_inside_negative_monitor_coordinates() {
    let rect = Rect { x: -100, y: 20, width: 50, height: 40 };

    assert!(rect_inside_monitor(rect, -200, 0, 200, 100));
}

#[test]
fn monitor_bounds_cover_negative_and_positive_coordinates() {
    let bounds = bounds_from_geometries(&[
        MonitorGeometry { x: -1280, y: 0, width: 1280, height: 720 },
        MonitorGeometry { x: 0, y: -100, width: 1920, height: 1080 },
    ])
    .unwrap();

    assert_eq!(bounds, Bounds { x: -1280, y: -100, width: 3200, height: 1080 });
}

#[test]
fn filename_pads_each_field() {
    let now = LocalTimestamp { year: 987, month: 1, day: 2, hour: 0, minute: 0, second: 9 };

    assert_eq!(screenshot_filename(&now), "screenshot-09870102-000009.png");
}

#[test]
fn no_monitors_has_no_bounds() {
    let error = bounds_from_geometries(&[]).unwrap_err();

    assert!(matches!(error, CaptureError::NoMonitors));
    assert_eq!(error.message(), "no monitors found");
}

#[test]
fn monitor_past_the_coordinate_range_has_no_bounds() {
    let result = bounds_from_geometries(&[MonitorGeometry { x: i32::MAX - 10, y: 0, width: 20, height: 10 }]);

    assert!(matches!(result, Err(CaptureError::NoMonitors)));
}

#[test]
fn rect_reaching_past_i32_is_not_inside() {
    let rect = Rect { x: i32::MAX - 1, y: 0, width: 5, height: 1 };

    assert!(!rect_inside_monitor(rect, 0, 0, u32::MAX, 10));
}

#[test]
fn monitors_are_placed_relative_to_bounds() {
    let monitors = [
        MonitorGeometry { x: -1280, y: 0, width: 1280, height: 720 },
        MonitorGeometry { x: 0, y: -100, width: 1920, height: 1080 },
    ];
    let bounds = bounds_from_geometries(&monitors).unwrap();

    assert_eq!(overlay_offsets(bounds, &monitors), vec![(0, 100), (1280, 0)]);
}

#[test]
fn region_is_placed_on_the_first_monitor_that_holds_it() {
    let monitors = [
        MonitorGeometry { x: -1280, y: 0, width: 1280, height: 720 },
        MonitorGeometry { x: 0, y: -100, width: 1920, height: 1080 },
    ];
    let rect = Rect { x: 10, y: 0, width: 100, height: 50 };

    assert_eq!(
        place_region(Some(rect), &monitors).unwrap(),
        RegionPlacement { monitor: 1, x: 10, y: 100, width: 100, height: 50 }
    );
}

#[test]
fn region_across_monitors_is_refused() {
    let monitors = [
        MonitorGeometry { x: -1280, y: 0, width: 1280, height: 720 },
        MonitorGeometry { x: 0, y: -100, width: 1920, height: 1080 },
    ];
    let rect = Rect { x: -10, y: 0, width: 100, height: 50 };

    let error = place_region(Some(rect), &monitors).unwrap_err();

    assert_eq!(error.message(), "region -10,0,100,50 is not fully inside one monitor");
}

#[test]
fn region_without_rect_is_unsupported() {
    let error = place_region(None, &[]).unwrap_err();

    assert_eq!(error.message(), "interactive region selection is not implemented; pass --rect x,y,w,h");
}
