use capture_pipeline::startup::{session_start_check, SessionStartError};

#[test]
fn present_float_device_starts() {
    assert_eq!(session_start_check(true, true), Ok(()));
}

#[test]
fn missing_device_is_fatal() {
    assert_eq!(
        session_start_check(false, true),
        Err(SessionStartError::DeviceUnavailable)
    );
}

#[test]
fn missing_device_is_reported_before_bad_format() {
    assert_eq!(
        session_start_check(false, false),
        Err(SessionStartError::DeviceUnavailable)
    );
}

#[test]
fn non_float_format_is_fatal() {
    assert_eq!(
        session_start_check(true, false),
        Err(SessionStartError::UnsupportedSampleFormat)
    );
}
