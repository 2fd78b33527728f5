use scrollshot::{crop_image, validate_rect, Bitmap, CaptureErrorKind, CaptureRect, CropRegion};

#[test]
fn test_crop_region_clamped_within_bounds() {
    let region = CropRegion::clamped(100, 100, 200, 200, 1920, 1080);

    assert_eq!(region.x, 100);
    assert_eq!(region.y, 100);
    assert_eq!(region.width, 200);
    assert_eq!(region.height, 200);
}

#[test]
fn test_crop_region_clamped_exceeds_bounds() {
    // Region that exceeds image bounds
    let region = CropRegion::clamped(1800, 1000, 500, 500, 1920, 1080);

    assert_eq!(region.x, 1800);
    assert_eq!(region.y, 1000);
    assert_eq!(region.width, 120); // 1920 - 1800 = 120
    assert_eq!(region.height, 80); // 1080 - 1000 = 80
}

#[test]
fn test_crop_region_clamped_x_y_exceed_bounds() {
    // X and Y exceed image dimensions
    let region = CropRegion::clamped(2000, 2000, 100, 100, 1920, 1080);

    assert_eq!(region.x, 1919); // Clamped to img_width - 1
    assert_eq!(region.y, 1079); // Clamped to img_height - 1
    assert_eq!(region.width, 1); // Only 1 pixel available
    assert_eq!(region.height, 1); // Only 1 pixel available
}

#[test]
fn test_crop_region_is_valid() {
    let valid_region = CropRegion {
        x: 0,
        y: 0,
        width: 100,
        height: 100,
    };
    assert!(valid_region.is_valid());

    let invalid_region_zero_width = CropRegion {
        x: 0,
        y: 0,
        width: 0,
        height: 100,
    };
    assert!(!invalid_region_zero_width.is_valid());

    let invalid_region_zero_height = CropRegion {
        x: 0,
        y: 0,
        width: 100,
        height: 0,
    };
    assert!(!invalid_region_zero_height.is_valid());
}

#[test]
fn test_crop_region_at_origin() {
    let region = CropRegion::clamped(0, 0, 100, 100, 1920, 1080);

    assert_eq!(region.x, 0);
    assert_eq!(region.y, 0);
    assert_eq!(region.width, 100);
    assert_eq!(region.height, 100);
    assert!(region.is_valid());
}

#[test]
fn test_crop_region_full_image() {
    let region = CropRegion::clamped(0, 0, 1920, 1080, 1920, 1080);

    assert_eq!(region.x, 0);
    assert_eq!(region.y, 0);
    assert_eq!(region.width, 1920);
    assert_eq!(region.height, 1080);
    assert!(region.is_valid());
}

#[test]
fn clamped_on_empty_image_is_invalid() {
    let region = CropRegion::clamped(5, 5, 10, 10, 0, 0);
    assert_eq!(region, CropRegion { x: 0, y: 0, width: 0, height: 0 });
    assert!(!region.is_valid());
}

fn numbered(width: u32, height: u32) -> Bitmap {
    let mut pixels = Vec::new();
    for i in 0..width * height {
        pixels.extend_from_slice(&[i as u8, 0, 0, 255]);
    }
    Bitmap::from_rgba(width, height, pixels).unwrap()
}

#[test]
fn crop_image_copies_the_region() {
    let image = numbered(4, 3);
    let out = crop_image(&image, CropRegion { x: 1, y: 1, width: 2, height: 5 }).unwrap();
    assert_eq!(out.width, 2);
    assert_eq!(out.height, 2);
    let reds: Vec<u8> = out.pixels.chunks(4).map(|p| p[0]).collect();
    assert_eq!(reds, vec![5, 6, 9, 10]);
}

#[test]
fn crop_image_refuses_empty_region() {
    let image = numbered(4, 3);
    let err = crop_image(&image, CropRegion { x: 1, y: 1, width: 0, height: 2 }).unwrap_err();
    assert_eq!(err.kind, CaptureErrorKind::ValidationFailed);
}

#[test]
fn validate_rect_needs_ten_pixels() {
    assert!(validate_rect(&CaptureRect { x: -5, y: 0, width: 10, height: 10 }).is_ok());
    let err = validate_rect(&CaptureRect { x: 0, y: 0, width: 9, height: 100 }).unwrap_err();
    assert_eq!(err.kind, CaptureErrorKind::ValidationFailed);
    assert!(validate_rect(&CaptureRect { x: 0, y: 0, width: 100, height: 9 }).is_err());
}
