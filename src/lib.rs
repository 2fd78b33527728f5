pub mod backend;
pub mod bitmap;
pub mod compare;
pub mod data_url;
pub mod effects;
pub mod geometry;
pub mod permission;
pub mod poller;
pub mod region;
pub mod session;
pub mod stitch;
pub mod types;

pub use backend::{CaptureRectInput, ScrollCaptureBackend, parse_major_version, preferred_scroll_capture_backend};
pub use bitmap::Bitmap;
pub use compare::{Score, difference, find_best_overlap, overlap_error, score_above, score_at_least, score_less};
pub use data_url::{decode_png_data_url, png_base64_payload};
pub use geometry::{MonitorGeometry, monitor_pixel_crop, resolve, resolve_target_monitor};
pub use permission::{is_permission_error, map_permission_check_error, permission_required_error};
pub use poller::{PollState, ScrollPollResult, ScrollPoller};
pub use region::{CropRegion, crop_image, validate_rect};
pub use session::{
    AppendResult, ScrollConfig, ScrollProgress, ScrollSession, ScrollSessionState, SkipReason, StopReason,
};
pub use stitch::{StitchMode, StitchResult, stitch};
pub use types::{CaptureError, CaptureErrorKind, CaptureRect, ScreenCaptureProvider};
