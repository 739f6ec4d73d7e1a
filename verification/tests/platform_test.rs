use shusei::error::ShuseiError;
use shusei::platform::{
    asset_file_name, asset_target_path, get_assets_directory, AndroidPlatform, DesktopPlatform, Event, IosPlatform,
};

#[test]
fn desktop_stubs() {
    let p = DesktopPlatform::new();
    assert!(matches!(p.capture_image(), Err(ShuseiError::Platform(m)) if m == "Camera not available on desktop"));
    assert_eq!(p.pick_file(&["pdf"]).unwrap_err(), ShuseiError::Platform("File picker not implemented".to_string()));
    assert_eq!(
        p.record_audio_error(10),
        ShuseiError::Platform("Audio recording not implemented on desktop".to_string())
    );
    assert!(!p.has_camera_permission());
    assert_eq!(p.request_camera_permission(), Ok(false));
}

#[test]
fn ios_and_android_stubs() {
    let ios = IosPlatform::new();
    assert!(matches!(ios.capture_image(), Err(ShuseiError::Platform(m)) if m.starts_with("iOS camera not yet implemented")));
    assert_eq!(ios.request_microphone_permission(), Ok(false));
    let android = AndroidPlatform::new();
    assert_eq!(
        android.record_audio_error(5),
        ShuseiError::Platform("JNI audio recording not yet implemented.".to_string())
    );
    assert!(!android.has_microphone_permission());
}

#[test]
fn asset_paths() {
    assert_eq!(get_assets_directory().unwrap(), "/data/data/com.shusei.app/files");
    assert_eq!(asset_file_name("test/medium_pdf_test.pdf").unwrap(), "medium_pdf_test.pdf");
    assert_eq!(asset_file_name("dir/name/").unwrap(), "name");
    assert_eq!(asset_file_name("a/./b/.").unwrap(), "b");
    assert!(asset_file_name("a/..").is_err());
    assert!(asset_file_name("").is_err());
    assert!(asset_file_name("/").is_err());
    assert_eq!(
        asset_target_path("test/medium_pdf_test.pdf").unwrap(),
        "/data/data/com.shusei.app/files/medium_pdf_test.pdf"
    );
}

#[test]
fn events_round_trip_through_their_bytes() {
    let all = [
        Event::Start,
        Event::Resume,
        Event::SaveInstanceState,
        Event::Pause,
        Event::Stop,
        Event::Destroy,
        Event::LowMemory,
        Event::WindowLostFocus,
        Event::WindowHasFocus,
    ];
    for (i, e) in all.iter().enumerate() {
        assert_eq!(e.to_byte() as usize, i);
        assert_eq!(Event::from_byte(e.to_byte()), Some(*e));
    }
    assert_eq!(Event::from_byte(9), None);
    assert_eq!(Event::focus(0), Event::WindowLostFocus);
    assert_eq!(Event::focus(1), Event::WindowHasFocus);
}
