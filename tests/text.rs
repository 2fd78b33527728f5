use scrollshot::{
    decode_png_data_url, is_permission_error, map_permission_check_error, parse_major_version,
    permission_required_error, png_base64_payload, preferred_scroll_capture_backend, CaptureErrorKind,
    ScrollCaptureBackend,
};

#[test]
fn permission_error_recognizes_display_creation_failure() {
    assert!(is_permission_error("could not create image from display"));
}

#[test]
fn permission_error_ignores_case() {
    assert!(is_permission_error("Access DENIED by the system"));
    assert!(is_permission_error("App is Not Authorized"));
    assert!(!is_permission_error("disk full"));
}

#[test]
fn map_permission_error_avoids_double_command_prefix() {
    let mapped = map_permission_check_error(
        "command_failed:Screen Recording check failed (exit code: 1)".to_string(),
    );
    assert_eq!(
        mapped,
        "command_failed:Screen Recording check failed (exit code: 1)"
    );
}

#[test]
fn map_permission_error_cases() {
    assert_eq!(map_permission_check_error("permission:anything".to_string()), permission_required_error());
    assert_eq!(map_permission_check_error("cancelled:by user".to_string()), "cancelled:by user");
    assert_eq!(map_permission_check_error("Permission denied".to_string()), permission_required_error());
    assert_eq!(map_permission_check_error("timeout".to_string()), "command_failed:timeout");
    assert!(permission_required_error().starts_with("permission:Screen Recording permission required."));
}

#[test]
fn test_base64_prefix_validation() {
    let valid_prefix = "data:image/png;base64,";
    let test_data = format!("{}iVBORw0KGgo=", valid_prefix);

    let result = png_base64_payload(&test_data);
    assert!(result.is_some());
    assert_eq!(result.unwrap(), "iVBORw0KGgo=");
}

#[test]
fn test_base64_invalid_prefix() {
    let invalid_data = "data:image/jpeg;base64,/9j/4AAQSkZJRg==";

    let result = png_base64_payload(invalid_data);
    assert!(result.is_none());
}

#[test]
fn decode_png_data_url_decodes_payload() {
    assert_eq!(decode_png_data_url("data:image/png;base64,aGk=").unwrap(), b"hi".to_vec());
    let err = decode_png_data_url("data:image/png;base64,@@@").unwrap_err();
    assert_eq!(err.kind, CaptureErrorKind::ValidationFailed);
    let err = decode_png_data_url("aGk=").unwrap_err();
    assert_eq!(err.kind, CaptureErrorKind::ValidationFailed);
}

#[test]
fn fallback_backend_on_non_macos() {
    assert_eq!(
        preferred_scroll_capture_backend(None),
        ScrollCaptureBackend::ScreencaptureCli
    );
}

#[test]
fn backend_by_version() {
    assert_eq!(preferred_scroll_capture_backend(Some(14)), ScrollCaptureBackend::ScreenCaptureKit);
    assert_eq!(preferred_scroll_capture_backend(Some(13)), ScrollCaptureBackend::ScreencaptureCli);
}

#[test]
fn parse_major_version_reads_first_component() {
    assert_eq!(parse_major_version("  14.2.1\n"), Some(14));
    assert_eq!(parse_major_version("15"), Some(15));
    assert_eq!(parse_major_version("+13.0"), Some(13));
    assert_eq!(parse_major_version("x.1"), None);
    assert_eq!(parse_major_version(".1"), None);
    assert_eq!(parse_major_version("99999999999.1"), None);
}
