use scrollshot::{
    monitor_pixel_crop, resolve, resolve_target_monitor, Bitmap, CaptureErrorKind, CaptureRect, CropRegion,
    MonitorGeometry, PollState, ScrollPoller,
};

/// A monitor given in physical pixels.
fn monitor(id: u32, x: i32, y: i32, width: u32, height: u32, scale_milli: u32) -> MonitorGeometry {
    MonitorGeometry { id, x, y, width, height, scale_milli }
}

#[test]
fn geometry_maps_rect_on_retina_monitor() {
    let monitors = vec![monitor(7, 0, 0, 2880, 1800, 2000)];
    let rect = CaptureRect { x: 10, y: 20, width: 100, height: 50 };
    let (id, crop) = resolve(rect, &monitors, 2880, 1800).unwrap();
    assert_eq!(id, 7);
    assert_eq!(crop, CropRegion { x: 20, y: 40, width: 200, height: 100 });
}

#[test]
fn geometry_rejects_rect_outside_monitors() {
    let monitors = vec![monitor(7, 0, 0, 2880, 1800, 2000)];
    let rect = CaptureRect { x: 5000, y: 20, width: 100, height: 50 };
    assert!(resolve_target_monitor(rect, &monitors).is_none());
    let err = resolve(rect, &monitors, 2880, 1800).unwrap_err();
    assert_eq!(err.kind, CaptureErrorKind::CaptureFailed);
}

#[test]
fn geometry_picks_first_monitor_holding_center() {
    let monitors = vec![
        monitor(1, 0, 0, 100, 100, 1000),
        monitor(2, 150, 0, 300, 150, 1500),
        monitor(3, 100, 0, 200, 100, 1000),
    ];
    // centre at (150, 50): the half-open bounds of monitor 1 end at 100
    let rect = CaptureRect { x: 120, y: 30, width: 60, height: 40 };
    assert_eq!(resolve_target_monitor(rect, &monitors).unwrap().id, 2);
    let crop = monitor_pixel_crop(rect, monitors[1], 300, 150).unwrap();
    // (120 - 100) * 1.5 = 30, 30 * 1.5 = 45, 60 * 1.5 = 90, 40 * 1.5 = 60
    assert_eq!(crop, CropRegion { x: 30, y: 45, width: 90, height: 60 });
}

#[test]
fn geometry_clamps_to_image() {
    let m = monitor(1, 0, 0, 100, 100, 1000);
    let rect = CaptureRect { x: 90, y: -10, width: 50, height: 50 };
    let crop = monitor_pixel_crop(rect, m, 100, 100).unwrap();
    assert_eq!(crop, CropRegion { x: 90, y: 0, width: 10, height: 50 });
    let rect = CaptureRect { x: 95, y: 0, width: 50, height: 50 };
    assert_eq!(monitor_pixel_crop(rect, m, 100, 100).unwrap_err().kind, CaptureErrorKind::CaptureFailed);
    let rect = CaptureRect { x: 100, y: 0, width: 50, height: 50 };
    assert!(monitor_pixel_crop(rect, m, 100, 100).is_err());
}

fn flat(v: u8) -> Bitmap {
    Bitmap::from_rgba(10, 10, vec![v; 400]).unwrap()
}

#[test]
fn poller_captures_after_scrolling_stops() {
    let mut poller = ScrollPoller::new();
    poller.reset();
    let r = poller.poll(flat(0));
    assert_eq!((r.state, r.frame_count), (PollState::Captured, 1));
    let r = poller.poll(flat(0));
    assert_eq!((r.state, r.frame_count), (PollState::Unchanged, 1));
    let r = poller.poll(flat(50));
    assert_eq!((r.state, r.frame_count), (PollState::Scrolling, 1));
    let r = poller.poll(flat(100));
    assert_eq!((r.state, r.frame_count), (PollState::Scrolling, 1));
    let r = poller.poll(flat(100));
    assert_eq!((r.state, r.frame_count), (PollState::Captured, 2));
    let r = poller.poll(flat(101));
    assert_eq!((r.state, r.frame_count), (PollState::Unchanged, 2));
    poller.reset();
    assert_eq!(poller.frame_count, 0);
    assert!(poller.prev_frame.is_none());
}

#[test]
fn poller_treats_size_change_as_movement() {
    let mut poller = ScrollPoller::new();
    poller.poll(flat(0));
    let r = poller.poll(Bitmap::from_rgba(5, 5, vec![0; 100]).unwrap());
    assert_eq!(r.state, PollState::Scrolling);
}

#[test]
fn geometry_keeps_fractional_logical_origins() {
    // logical bounds [0, 150.5) and [150.5, 350.5)
    let monitors = vec![monitor(1, 0, 0, 301, 400, 2000), monitor(2, 301, 0, 400, 400, 2000)];
    // centre at 150.5
    let rect = CaptureRect { x: 150, y: 10, width: 1, height: 20 };
    assert_eq!(resolve_target_monitor(rect, &monitors).unwrap().id, 2);
    // centre at 150
    let rect = CaptureRect { x: 149, y: 10, width: 2, height: 20 };
    assert_eq!(resolve_target_monitor(rect, &monitors).unwrap().id, 1);
}

#[test]
fn geometry_ignores_monitor_without_scale() {
    let monitors = vec![monitor(1, 0, 0, 100, 100, 0), monitor(2, 0, 0, 100, 100, 1000)];
    let rect = CaptureRect { x: 10, y: 10, width: 20, height: 20 };
    assert_eq!(resolve_target_monitor(rect, &monitors).unwrap().id, 2);
}

#[test]
fn geometry_crop_relative_to_second_monitor() {
    // logical bounds [0, 1440) and [2880, 4800)
    let monitors = vec![monitor(1, 0, 0, 2880, 1800, 2000), monitor(2, 2880, 0, 1920, 1080, 1000)];
    // centre at 1600: between the two
    let rect = CaptureRect { x: 1500, y: 100, width: 200, height: 100 };
    assert!(resolve(rect, &monitors, 1920, 1080).is_err());
    let rect = CaptureRect { x: 2900, y: 100, width: 200, height: 100 };
    let (id, crop) = resolve(rect, &monitors, 1920, 1080).unwrap();
    assert_eq!(id, 2);
    assert_eq!(crop, CropRegion { x: 20, y: 100, width: 200, height: 100 });
}
