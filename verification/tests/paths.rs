use vcam_server::constants::{ACTIVATE_CLSID_STRING, FRAME_BROKER_CLSID_STRING};
use vcam_server::paths::{
    clsid_registration, clsid_registry_path, feed_control_file_path, feed_data_file_path,
    feed_mutex_name, feed_shared_root_path, join_path, server_registration, server_unregistration, wide_null,
};

#[test]
fn join_adds_one_backslash() {
    assert_eq!(join_path("C:\\a", "b"), "C:\\a\\b");
    assert_eq!(join_path("C:\\a\\", "b"), "C:\\a\\b");
    assert_eq!(join_path("C:\\a/", "b"), "C:\\a/b");
    assert_eq!(join_path("C:", "b"), "C:b");
    assert_eq!(join_path("", "b"), "b");
}

#[test]
fn shared_root_defaults_to_the_public_profile() {
    assert_eq!(feed_shared_root_path(None), "C:\\Users\\Public\\Documents\\vcam-windows-rs");
    assert_eq!(feed_shared_root_path(Some("D:\\Pub")), "D:\\Pub\\Documents\\vcam-windows-rs");
}

#[test]
fn feed_file_names_carry_the_class_id() {
    let root = "C:\\Users\\Public\\Documents\\vcam-windows-rs";
    assert_eq!(
        feed_control_file_path(root),
        format!("{root}\\RustVcamFeedControl-{{44E66AC5-04BE-4E2F-9D15-FEA1430DF6B5}}.bin")
    );
    assert_eq!(
        feed_data_file_path(root),
        format!("{root}\\RustVcamFeedData-{{44E66AC5-04BE-4E2F-9D15-FEA1430DF6B5}}.bin")
    );
    assert_eq!(feed_mutex_name(), "Global\\RustVcamFeedMutex-{44E66AC5-04BE-4E2F-9D15-FEA1430DF6B5}");
}

#[test]
fn registration_values_of_a_class() {
    let v = clsid_registration("{X}", "Name", "C:\\s.dll");
    assert_eq!(v.len(), 3);
    assert_eq!(v[0].path, "Software\\Classes\\CLSID\\{X}");
    assert_eq!(v[0].name, None);
    assert_eq!(v[0].value, "Name");
    assert_eq!(v[1].path, "Software\\Classes\\CLSID\\{X}\\InprocServer32");
    assert_eq!(v[1].name, None);
    assert_eq!(v[1].value, "C:\\s.dll");
    assert_eq!(v[2].path, "Software\\Classes\\CLSID\\{X}\\InprocServer32");
    assert_eq!(v[2].name.as_deref(), Some("ThreadingModel"));
    assert_eq!(v[2].value, "Both");
}

#[test]
fn server_registers_the_camera_and_the_broker() {
    let v = server_registration("C:\\s.dll");
    assert_eq!(v.len(), 6);
    assert_eq!(v[0].path, clsid_registry_path(ACTIVATE_CLSID_STRING));
    assert_eq!(v[0].value, "Rust StaticCam Prototype");
    assert_eq!(v[3].path, clsid_registry_path(FRAME_BROKER_CLSID_STRING));
    assert_eq!(v[3].value, "Rust VCam Frame Broker");
    assert_eq!(v[4].value, "C:\\s.dll");
    let removed = server_unregistration();
    assert_eq!(removed.len(), 2);
    // Every registered key lies under a key that unregistration removes.
    for value in &v {
        assert!(removed.iter().any(|key| value.path.starts_with(key.as_str())));
    }
}

#[test]
fn wide_text_ends_in_zero() {
    assert_eq!(wide_null("Ab"), vec![0x41, 0x62, 0]);
    assert_eq!(wide_null(""), vec![0]);
    assert_eq!(wide_null("é"), vec![0xe9, 0]);
    let expected: Vec<u16> = "a😀".encode_utf16().chain(std::iter::once(0)).collect();
    assert_eq!(wide_null("a😀"), expected);
    assert_eq!(wide_null("😀"), vec![0xd83d, 0xde00, 0]);
}
