use vcam_server::error::{VcamError, E_FAIL, E_INVALIDARG, E_POINTER, HRESULT_ERROR_BUSY, MF_E_SHUTDOWN};

#[test]
fn result_codes_are_the_windows_values() {
    assert_eq!(E_FAIL as u32, 0x8000_4005);
    assert_eq!(E_INVALIDARG as u32, 0x8007_0057);
    assert_eq!(E_POINTER as u32, 0x8000_4003);
    assert_eq!(HRESULT_ERROR_BUSY as u32, 0x8007_00AA);
    assert_eq!(MF_E_SHUTDOWN as u32, 0xC00D_3E85);
}

#[test]
fn each_failure_has_its_code() {
    assert_eq!(VcamError::ZeroFrameDimensions.code(), E_INVALIDARG);
    assert_eq!(VcamError::SessionBusy.code(), HRESULT_ERROR_BUSY);
    assert_eq!(VcamError::SessionInactive.code(), E_FAIL);
    assert_eq!(VcamError::SlotIndexOutOfRange.code(), E_FAIL);
    assert_eq!(VcamError::Shutdown.code(), MF_E_SHUTDOWN);
    assert_eq!(VcamError::InvalidRequest.code() as u32, 0xC00D_36B2);
    assert_eq!(VcamError::UnsupportedTimeFormat.code() as u32, 0xC00D_36C5);
    assert_eq!(VcamError::BufferTooSmall.code(), E_POINTER);
}

#[test]
fn failure_messages() {
    assert_eq!(VcamError::SessionBusy.message(), "a shared-memory feed session is already active");
    assert_eq!(VcamError::Nv12PitchNotPositive.message(), "NV12 surface pitch must be positive");
    assert_eq!(
        VcamError::PayloadSizeMismatch { expected: 1228800, actual: 12 }.message(),
        "frame payload size mismatch: expected 1228800 bytes, got 12"
    );
    assert_eq!(
        VcamError::Rgb32FrameSizeMismatch { expected: 16, actual: 0 }.message(),
        "RGB32 frame size mismatch: expected 16 bytes, got 0"
    );
    assert_eq!(
        VcamError::Nv12FrameSizeMismatch { expected: 6, actual: 7 }.message(),
        "NV12 frame size mismatch: expected 6 bytes, got 7"
    );
}
