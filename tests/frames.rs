use scrollshot::compare::{CHANGE_THRESHOLD_CENTI, MAX_MATCH_ERROR_CENTI};
use scrollshot::stitch::MAX_SCROLL_FRAMES;
use scrollshot::{
    difference, find_best_overlap, overlap_error, score_above, score_at_least, score_less, stitch, Bitmap,
    CaptureErrorKind, Score, SkipReason, StitchMode,
};

fn build_frame(width: u32, height: u32, start: u32) -> Bitmap {
    let mut pixels = Vec::with_capacity((width * height * 4) as usize);
    for y in 0..height {
        for x in 0..width {
            let value = ((start + y + x / 3) % 255) as u8;
            pixels.extend_from_slice(&[value, value / 2, 255 - value, 255]);
        }
    }
    Bitmap::from_rgba(width, height, pixels).unwrap()
}

fn solid(width: u32, height: u32, rgba: [u8; 4]) -> Bitmap {
    let mut pixels = Vec::new();
    for _ in 0..width * height {
        pixels.extend_from_slice(&rgba);
    }
    Bitmap::from_rgba(width, height, pixels).unwrap()
}

#[test]
fn sample_frame_difference_detects_identical_frame() {
    let frame1 = build_frame(120, 180, 0);
    let frame2 = build_frame(120, 180, 0);
    let diff = difference(&frame1, &frame2).unwrap();
    // mean below 0.5
    assert!(!score_at_least(diff, 50));
}

#[test]
fn find_best_overlap_detects_scroll_delta() {
    let frame1 = build_frame(160, 240, 0);
    let scroll_delta = 80;
    let frame2 = build_frame(160, 240, scroll_delta);
    let (overlap, err) = find_best_overlap(&frame1, &frame2).expect("overlap should be found");
    assert!((overlap as i32 - (240 - scroll_delta) as i32).abs() <= 8);
    assert!(!score_at_least(err, MAX_MATCH_ERROR_CENTI));
}

#[test]
fn identical_frames_score_zero() {
    let frame = build_frame(33, 47, 9);
    let diff = difference(&frame, &frame).unwrap();
    assert_eq!(diff.total, 0);
    assert!(diff.samples > 0);
    // 33 columns with stride 1, 47 rows with stride 1
    assert_eq!(diff.samples, 33 * 47);
}

#[test]
fn difference_exact_value_on_solid_frames() {
    let a = solid(160, 160, [10, 20, 30, 255]);
    let b = solid(160, 160, [13, 20, 24, 0]);
    let diff = difference(&a, &b).unwrap();
    // stride 2 on both axes: 80 x 80 samples, each |3| + |0| + |6| = 9; alpha ignored
    assert_eq!(diff, Score { total: 9 * 6400, samples: 6400 });
    assert!(score_at_least(diff, CHANGE_THRESHOLD_CENTI));
    assert!(!score_at_least(diff, 301));
}

#[test]
fn difference_of_empty_frames_is_maximal() {
    let a = Bitmap::from_rgba(0, 5, Vec::new()).unwrap();
    let diff = difference(&a, &a).unwrap();
    assert_eq!(diff, Score { total: 765, samples: 1 });
}

#[test]
fn difference_rejects_mismatched_sizes() {
    let a = build_frame(20, 20, 0);
    let b = build_frame(20, 21, 0);
    let err = difference(&a, &b).unwrap_err();
    assert_eq!(err.kind, CaptureErrorKind::ValidationFailed);
}

#[test]
fn from_rgba_checks_length() {
    assert!(Bitmap::from_rgba(2, 2, vec![0; 15]).is_none());
    assert!(Bitmap::from_rgba(2, 2, vec![0; 16]).is_some());
}

#[test]
fn score_comparisons_are_exact() {
    let a = Score { total: 1, samples: 3 };
    let b = Score { total: 2, samples: 5 };
    assert!(score_less(a, b));
    assert!(!score_less(b, a));
    assert!(!score_less(a, a));
    // 42.0 per channel exactly is not above the ceiling
    let ceiling = Score { total: 126, samples: 1 };
    assert!(!score_above(ceiling, MAX_MATCH_ERROR_CENTI));
    assert!(score_above(Score { total: 127, samples: 1 }, MAX_MATCH_ERROR_CENTI));
}

#[test]
fn overlap_error_out_of_range_has_no_samples() {
    let a = solid(40, 40, [3, 4, 5, 6]);
    assert_eq!(overlap_error(&a, &a, 0).samples, 0);
    assert_eq!(overlap_error(&a, &a, 41).samples, 0);
    // columns 6..34 with stride 1, rows 0..10 with stride 1
    assert_eq!(overlap_error(&a, &a, 10), Score { total: 0, samples: 28 * 10 });
    let b = build_frame(40, 40, 0);
    let c = build_frame(40, 40, 30);
    // the bottom 10 rows of b are the top 10 rows of c
    assert_eq!(overlap_error(&b, &c, 10).total, 0);
}

#[test]
fn find_best_overlap_fails_on_unrelated_frames() {
    let a = solid(60, 60, [0, 0, 0, 255]);
    let b = solid(60, 60, [255, 255, 255, 255]);
    assert_eq!(find_best_overlap(&a, &b), Err(SkipReason::MatchFailed));
}

#[test]
fn find_best_overlap_prefers_first_minimum() {
    let a = solid(60, 60, [7, 7, 7, 255]);
    // every candidate scores zero: the smallest one, 24, wins
    let (overlap, err) = find_best_overlap(&a, &a).unwrap();
    assert_eq!(overlap, 24);
    assert_eq!(err.total, 0);
}

#[test]
fn stitch_two_scrolled_frames() {
    let frame1 = build_frame(160, 240, 0);
    let frame2 = build_frame(160, 240, 80);
    let (image, result) = stitch(&vec![frame1, frame2], StitchMode::Strict, MAX_SCROLL_FRAMES).unwrap();
    assert_eq!(result.used_frames, 2);
    assert_eq!(result.skipped_frames, 0);
    assert_eq!(result.total_frames, 2);
    assert!((result.final_height as i64 - 320).abs() <= 8);
    assert_eq!(image.height, result.final_height);
    assert_eq!(image.width, 160);
    assert_eq!(image.pixels.len(), (160 * image.height * 4) as usize);
}

#[test]
fn stitch_single_frame_fails_in_strict_mode() {
    let frame = build_frame(160, 240, 0);
    let err = stitch(&vec![frame], StitchMode::Strict, MAX_SCROLL_FRAMES).unwrap_err();
    assert_eq!(err.kind, CaptureErrorKind::StitchFailed);
}

#[test]
fn stitch_duplicates_fail_in_strict_mode() {
    let frame = build_frame(100, 100, 0);
    let err = stitch(&vec![frame.clone(), frame], StitchMode::Strict, MAX_SCROLL_FRAMES).unwrap_err();
    assert_eq!(err.kind, CaptureErrorKind::StitchFailed);
}

#[test]
fn stitch_too_many_frames_in_strict_mode() {
    let frames = vec![build_frame(30, 30, 0), build_frame(30, 30, 1), build_frame(30, 30, 2)];
    let err = stitch(&frames, StitchMode::Strict, 2).unwrap_err();
    assert_eq!(err.kind, CaptureErrorKind::ValidationFailed);
}

#[test]
fn stitch_rejects_small_or_mismatched_frames() {
    let small = vec![build_frame(19, 40, 0), build_frame(19, 40, 5)];
    assert_eq!(stitch(&small, StitchMode::Strict, 80).unwrap_err().kind, CaptureErrorKind::ValidationFailed);
    let mixed = vec![build_frame(40, 40, 0), build_frame(40, 41, 5)];
    assert_eq!(stitch(&mixed, StitchMode::Lenient, 80).unwrap_err().kind, CaptureErrorKind::ValidationFailed);
}

#[test]
fn lenient_stitch_falls_back_to_last_frame() {
    let a = solid(40, 40, [1, 2, 3, 255]);
    let b = solid(40, 40, [1, 2, 3, 9]);
    let (image, result) = stitch(&vec![a, b.clone()], StitchMode::Lenient, 80).unwrap();
    assert_eq!(image.pixels, b.pixels);
    assert_eq!(result.used_frames, 1);
    assert_eq!(result.skipped_frames, 1);
    assert_eq!(result.final_height, 40);
}

#[test]
fn lenient_stitch_keeps_most_recent_frames() {
    let frames = vec![build_frame(160, 240, 0), build_frame(160, 240, 80), build_frame(160, 240, 160)];
    let (image, result) = stitch(&frames, StitchMode::Lenient, 2).unwrap();
    assert_eq!(result.total_frames, 2);
    assert_eq!(result.used_frames, 2);
    // the first kept frame is the second input, whole
    assert_eq!(&image.pixels[..(160 * 240 * 4) as usize], &frames[1].pixels[..]);
}

#[test]
fn lenient_stitch_without_frames_fails() {
    let err = stitch(&Vec::new(), StitchMode::Lenient, 80).unwrap_err();
    assert_eq!(err.kind, CaptureErrorKind::StitchFailed);
    let err = stitch(&vec![build_frame(30, 30, 0)], StitchMode::Lenient, 0).unwrap_err();
    assert_eq!(err.kind, CaptureErrorKind::StitchFailed);
}

#[test]
fn stitch_composite_is_frame_then_slice() {
    let frame1 = build_frame(160, 240, 0);
    let frame2 = build_frame(160, 240, 80);
    let (overlap, _) = find_best_overlap(&frame1, &frame2).unwrap();
    let (image, _) = stitch(&vec![frame1.clone(), frame2.clone()], StitchMode::Strict, 80).unwrap();
    let head = (160 * 240 * 4) as usize;
    assert_eq!(&image.pixels[..head], &frame1.pixels[..]);
    assert_eq!(&image.pixels[head..], &frame2.pixels[(overlap * 160 * 4) as usize..]);
    assert_eq!(image.height, 240 + (240 - overlap));
}
