use vstd::prelude::*;

verus! {

/// Why a capture session could not start. Both conditions are fatal,
/// surfaced once at session start, and never retried automatically.
#[derive(Clone, Copy, Debug, PartialEq, Eq)]
pub enum SessionStartError {
    /// No default input device was found.
    DeviceUnavailable,
    /// The device's native sample format is not floating-point, the only
    /// format the converter's front end supports; capturing anyway would
    /// produce garbage rather than audio.
    UnsupportedSampleFormat,
}

/// Decide whether a capture session may start, from what the device probe
/// reported: whether a default input device exists, and whether its native
/// sample format is floating-point. A missing device is reported before a
/// bad format.
pub fn session_start_check(device_present: bool, format_is_float: bool) -> (r: Result<
    (),
    SessionStartError,
>)
    ensures
        r is Ok <==> device_present && format_is_float,
        !device_present ==> r == Err::<(), SessionStartError>(
            SessionStartError::DeviceUnavailable,
        ),
        device_present && !format_is_float ==> r == Err::<(), SessionStartError>(
            SessionStartError::UnsupportedSampleFormat,
        ),
{
    if !device_present {
        Err(SessionStartError::DeviceUnavailable)
    } else if !format_is_float {
        Err(SessionStartError::UnsupportedSampleFormat)
    } else {
        Ok(())
    }
}

} // verus!
