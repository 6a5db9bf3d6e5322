use shotlite::pixels::{apply_highlight, apply_redaction, average, crop_image, Rgba, RgbaImage};
use shotlite::rect::{Rect, RectParseError, RedactError};

fn pixels_of(image: &RgbaImage) -> Vec<Rgba> {
    let mut pixels = Vec::new();
    for y in 0..image.height() {
        for x in 0..image.width() {
            pixels.push(image.get_pixel(x, y));
        }
    }
    pixels
}

#[test]
fn parses_rect() {
    assert_eq!("10,20,200,80".parse::<Rect>().unwrap(), Rect { x: 10, y: 20, width: 200, height: 80 });
}

#[test]
fn rejects_empty_rect() {
    assert_eq!("1,2,0,4".parse::<Rect>(), Err(RectParseError::Empty));
    assert_eq!("1,2,3,0".parse::<Rect>(), Err(RectParseError::Empty));
}

#[test]
fn accepts_rect_inside_image() {
    let rect = Rect { x: 1, y: 2, width: 3, height: 4 };

    let checked = rect.checked_for_image(10, 10).unwrap();

    assert_eq!((checked.x(), checked.y(), checked.width(), checked.height()), (1, 2, 3, 4));
}

#[test]
fn rejects_rect_outside_image() {
    let rect = Rect { x: 8, y: 8, width: 3, height: 1 };

    assert!(matches!(
        rect.checked_for_image(10, 10),
        Err(RedactError::RectOutOfBounds { image_width: 10, image_height: 10 })
    ));
}

#[test]
fn rejects_negative_rect_coordinates() {
    let rect = Rect { x: -1, y: 0, width: 1, height: 1 };

    assert!(matches!(
        rect.checked_for_image(10, 10),
        Err(RedactError::RectOutOfBounds { image_width: 10, image_height: 10 })
    ));

    let rect = Rect { x: 0, y: -1, width: 1, height: 1 };

    assert!(matches!(
        rect.checked_for_image(10, 10),
        Err(RedactError::RectOutOfBounds { image_width: 10, image_height: 10 })
    ));
}

#[test]
fn redaction_changes_pixels() {
    let mut image = RgbaImage::from_pixel(4, 4, Rgba::new(255, 255, 255, 255));

    apply_redaction(&mut image, Rect { x: 1, y: 1, width: 2, height: 2 }, Rgba::new(0, 0, 0, 255)).unwrap();

    assert_eq!(image.get_pixel(1, 1), Rgba::new(0, 0, 0, 255));
    assert_eq!(image.get_pixel(0, 0), Rgba::new(255, 255, 255, 255));
}

#[test]
fn highlight_changes_pixels_and_preserves_alpha() {
    let mut image = RgbaImage::from_pixel(2, 2, Rgba::new(10, 20, 30, 200));

    apply_highlight(&mut image, Rect { x: 0, y: 0, width: 1, height: 1 }).unwrap();

    assert_eq!(image.get_pixel(0, 0), Rgba::new(132, 125, 15, 200));
    assert_eq!(image.get_pixel(1, 1), Rgba::new(10, 20, 30, 200));
}

#[test]
fn rect_parts_may_carry_whitespace() {
    assert_eq!(" -5 , +6,\t7 ,8 ".parse::<Rect>(), Ok(Rect { x: -5, y: 6, width: 7, height: 8 }));
}

#[test]
fn rect_with_wrong_part_count_is_refused() {
    assert_eq!("1,2,3".parse::<Rect>(), Err(RectParseError::WrongPartCount));
    assert_eq!("1,2,3,4,5".parse::<Rect>(), Err(RectParseError::WrongPartCount));
    assert_eq!("".parse::<Rect>(), Err(RectParseError::WrongPartCount));
}

#[test]
fn rect_with_bad_numbers_is_refused() {
    assert_eq!("a,2,3,4".parse::<Rect>(), Err(RectParseError::InvalidNumber));
    assert_eq!("1,2,-3,4".parse::<Rect>(), Err(RectParseError::InvalidNumber));
    assert_eq!("2147483648,0,1,1".parse::<Rect>(), Err(RectParseError::InvalidNumber));
    assert_eq!("1,2,,4".parse::<Rect>(), Err(RectParseError::InvalidNumber));
    assert_eq!("1,2,0,x".parse::<Rect>(), Err(RectParseError::InvalidNumber));
}

#[test]
fn rect_range_edges_are_read() {
    assert_eq!(
        "-2147483648,2147483647,4294967295,1".parse::<Rect>(),
        Ok(Rect { x: i32::MIN, y: i32::MAX, width: u32::MAX, height: 1 })
    );
}

#[test]
fn rect_text_reads_back() {
    let rect = Rect { x: -12, y: 0, width: 300, height: 7 };

    assert_eq!(rect.to_text(), "-12,0,300,7");
    assert_eq!(rect.to_text().parse::<Rect>(), Ok(rect));
}

#[test]
fn parse_error_messages() {
    assert_eq!(RectParseError::WrongPartCount.message(), "rect must use x,y,w,h");
    assert_eq!(RectParseError::InvalidNumber.message(), "rect contains an invalid number");
    assert_eq!(RectParseError::Empty.message(), "rect width and height must be greater than zero");
}

#[test]
fn out_of_bounds_message_names_the_image_size() {
    let error = RedactError::RectOutOfBounds { image_width: 4, image_height: 3 };

    assert_eq!(error.message(), "rect is outside image bounds (4x3)");
}

#[test]
fn rect_past_u32_range_is_refused() {
    let rect = Rect { x: 5, y: 0, width: u32::MAX, height: 1 };

    assert!(rect.checked_for_image(u32::MAX, 1).is_err());
}

#[test]
fn refused_redaction_leaves_the_image() {
    let mut image = RgbaImage::from_pixel(2, 2, Rgba::new(1, 2, 3, 4));

    let error = apply_redaction(&mut image, Rect { x: 1, y: 1, width: 2, height: 1 }, Rgba::new(0, 0, 0, 255))
        .unwrap_err();

    assert!(matches!(error, RedactError::RectOutOfBounds { image_width: 2, image_height: 2 }));
    assert_eq!(image.get_pixel(1, 1), Rgba::new(1, 2, 3, 4));
}

#[test]
fn redacting_twice_is_the_same_as_once() {
    let mut image = RgbaImage::from_pixel(3, 3, Rgba::new(9, 9, 9, 9));
    let rect = Rect { x: 0, y: 1, width: 2, height: 2 };

    apply_redaction(&mut image, rect, Rgba::new(0, 0, 0, 255)).unwrap();
    let once = pixels_of(&image);
    apply_redaction(&mut image, rect, Rgba::new(0, 0, 0, 255)).unwrap();

    assert_eq!(pixels_of(&image), once);
}

#[test]
fn crop_of_a_redaction_is_solid() {
    let mut image = RgbaImage::from_pixel(4, 3, Rgba::new(200, 100, 50, 255));
    image.put_pixel(1, 1, Rgba::new(1, 1, 1, 1));
    let rect = Rect { x: 1, y: 1, width: 2, height: 2 };

    apply_redaction(&mut image, rect, Rgba::new(0, 0, 0, 255)).unwrap();
    let cropped = crop_image(&image, rect).unwrap();

    assert_eq!((cropped.width(), cropped.height()), (2, 2));
    assert_eq!(cropped.into_raw(), [0, 0, 0, 255].repeat(4));
}

#[test]
fn crop_copies_the_rectangle() {
    let mut image = RgbaImage::from_pixel(4, 3, Rgba::new(255, 255, 255, 255));
    image.put_pixel(2, 1, Rgba::new(10, 20, 30, 40));

    let cropped = crop_image(&image, Rect { x: 2, y: 1, width: 2, height: 1 }).unwrap();

    assert_eq!(cropped.get_pixel(0, 0), Rgba::new(10, 20, 30, 40));
    assert_eq!(cropped.get_pixel(1, 0), Rgba::new(255, 255, 255, 255));
    assert!(crop_image(&image, Rect { x: 3, y: 0, width: 2, height: 1 }).is_err());
}

#[test]
fn average_rounds_down() {
    assert_eq!(average(10, 255), 132);
    assert_eq!(average(255, 255), 255);
    assert_eq!(average(0, 1), 0);
}

#[test]
fn raw_bytes_round_trip() {
    let bytes = vec![1, 2, 3, 4, 5, 6, 7, 8];

    let image = RgbaImage::from_raw(2, 1, bytes.clone()).unwrap();

    assert_eq!(image.get_pixel(1, 0), Rgba::new(5, 6, 7, 8));
    assert_eq!(image.into_raw(), bytes);
    assert!(RgbaImage::from_raw(2, 2, vec![0; 8]).is_none());
}
