use vcam_server::cli::{
    describe_mismatch, first_mismatch, parse_dump_com_frame_options, parse_registration_options, parse_scope,
    parse_stream_options, parse_u32_arg, parse_u32_text, text_is, verify_frame_payload, CliError, CliOption,
    FrameSubtype, Mismatch, NumberError, StreamOptions, NV12_SUBTYPE_ID, RGB32_SUBTYPE_ID,
};
use vcam_server::paths::RegistryScope;

fn args(items: &[&str]) -> Vec<String> {
    items.iter().map(|s| s.to_string()).collect()
}

#[test]
fn text_comparison() {
    assert!(text_is("user", "user"));
    assert!(!text_is("user", "users"));
    assert!(!text_is("usex", "user"));
}

#[test]
fn scopes() {
    assert_eq!(parse_scope("user"), Some(RegistryScope::CurrentUser));
    assert_eq!(parse_scope("machine"), Some(RegistryScope::LocalMachine));
    assert_eq!(parse_scope("Machine"), None);
}

#[test]
fn registration_defaults_to_the_current_user() {
    let o = parse_registration_options(&args(&[])).unwrap();
    assert_eq!(o.scope, RegistryScope::CurrentUser);
    assert_eq!(o.dll_path, None);
}

#[test]
fn registration_options_last_one_wins() {
    let o = parse_registration_options(&args(&["--scope", "machine", "--dll-path", "a.dll", "--dll-path", "b.dll"])).unwrap();
    assert_eq!(o.scope, RegistryScope::LocalMachine);
    assert_eq!(o.dll_path.as_deref(), Some("b.dll"));
}

#[test]
fn registration_option_errors() {
    assert_eq!(parse_registration_options(&args(&["--scope"])).err(), Some(CliError::MissingValue(CliOption::Scope)));
    assert_eq!(parse_registration_options(&args(&["--dll-path"])).err(), Some(CliError::MissingValue(CliOption::DllPath)));
    assert_eq!(parse_registration_options(&args(&["--scope", "all"])).err(), Some(CliError::InvalidScope { index: 1 }));
    assert_eq!(parse_registration_options(&args(&["--scope", "user", "x"])).err(), Some(CliError::UnknownOption { index: 2 }));
}

#[test]
fn subtypes_round_trip_through_their_labels() {
    for t in [FrameSubtype::Rgb32, FrameSubtype::Nv12] {
        assert_eq!(FrameSubtype::parse(t.label()), Some(t));
    }
    assert_eq!(FrameSubtype::Rgb32.label(), "rgb32");
    assert_eq!(FrameSubtype::Nv12.label(), "nv12");
    assert_eq!(FrameSubtype::parse("NV12"), None);
}

#[test]
fn subtypes_round_trip_through_their_media_ids() {
    for t in [FrameSubtype::Rgb32, FrameSubtype::Nv12] {
        assert_eq!(FrameSubtype::from_guid(t.guid()), Some(t));
    }
    assert_eq!(FrameSubtype::Rgb32.guid(), 0x00000016_0000_0010_8000_00aa00389b71);
    assert_eq!(FrameSubtype::from_guid(NV12_SUBTYPE_ID), Some(FrameSubtype::Nv12));
    assert_eq!(FrameSubtype::from_guid(RGB32_SUBTYPE_ID + 1), None);
}

#[test]
fn dump_options_defaults() {
    let o = parse_dump_com_frame_options(&args(&[])).unwrap();
    assert_eq!(o.subtype, FrameSubtype::Rgb32);
    assert_eq!(o.path, "com-frame-rgb32.bmp");
    let o = parse_dump_com_frame_options(&args(&["--subtype", "nv12"])).unwrap();
    assert_eq!(o.subtype, FrameSubtype::Nv12);
    assert_eq!(o.path, "com-frame-nv12.bmp");
}

#[test]
fn dump_options_take_a_path_anywhere() {
    let o = parse_dump_com_frame_options(&args(&["out.bmp", "--subtype", "nv12"])).unwrap();
    assert_eq!(o.path, "out.bmp");
    assert_eq!(o.subtype, FrameSubtype::Nv12);
    let o = parse_dump_com_frame_options(&args(&["--subtype", "rgb32", "-x.bmp"])).unwrap();
    assert_eq!(o.path, "-x.bmp");
}

#[test]
fn dump_option_errors() {
    assert_eq!(parse_dump_com_frame_options(&args(&["--subtype"])).err(), Some(CliError::MissingValue(CliOption::Subtype)));
    assert_eq!(parse_dump_com_frame_options(&args(&["--subtype", "yuy2"])).err(), Some(CliError::InvalidSubtype { index: 1 }));
    assert_eq!(parse_dump_com_frame_options(&args(&["a.bmp", "--force"])).err(), Some(CliError::UnknownOption { index: 1 }));
    assert_eq!(parse_dump_com_frame_options(&args(&["a.bmp", "b.bmp"])).err(), Some(CliError::TooManyPaths));
}

#[test]
fn numbers() {
    assert_eq!(parse_u32_text("0"), Ok(0));
    assert_eq!(parse_u32_text("+640"), Ok(640));
    assert_eq!(parse_u32_text("4294967295"), Ok(u32::MAX));
    assert_eq!(parse_u32_text("4294967296"), Err(NumberError::Overflow));
    assert_eq!(parse_u32_text(""), Err(NumberError::Empty));
    assert_eq!(parse_u32_text("+"), Err(NumberError::InvalidDigit));
    assert_eq!(parse_u32_text("-1"), Err(NumberError::InvalidDigit));
    assert_eq!(parse_u32_text("12a"), Err(NumberError::InvalidDigit));
    // Agrees with the standard parser.
    for text in ["7", "+7", "007", "99999999999", " 1", "1_000"] {
        assert_eq!(parse_u32_text(text).ok(), text.parse::<u32>().ok());
    }
}

#[test]
fn number_arguments() {
    let a = args(&["--width", "640", "--fps", "x"]);
    assert_eq!(parse_u32_arg(&a, 1, CliOption::Width), Ok(640));
    assert_eq!(
        parse_u32_arg(&a, 3, CliOption::Fps),
        Err(CliError::InvalidNumber { option: CliOption::Fps, index: 3, error: NumberError::InvalidDigit })
    );
    assert_eq!(parse_u32_arg(&a, 4, CliOption::Fps), Err(CliError::MissingValue(CliOption::Fps)));
}

#[test]
fn stream_options() {
    let o = parse_stream_options(&args(&[])).unwrap();
    assert_eq!(o, StreamOptions { width: 1920, height: 1080, fps: 60, duration_seconds: 10, force_reset: false });
    let o = parse_stream_options(&args(&[
        "--width", "640", "--height", "480", "--fps", "10", "--duration-seconds", "10", "--force-reset",
    ]))
    .unwrap();
    assert_eq!(o, StreamOptions { width: 640, height: 480, fps: 10, duration_seconds: 10, force_reset: true });
}

#[test]
fn stream_option_errors() {
    assert_eq!(parse_stream_options(&args(&["--width"])), Err(CliError::MissingValue(CliOption::Width)));
    assert_eq!(
        parse_stream_options(&args(&["--height", "tall"])),
        Err(CliError::InvalidNumber { option: CliOption::Height, index: 1, error: NumberError::InvalidDigit })
    );
    assert_eq!(
        parse_stream_options(&args(&["--duration-seconds", ""])),
        Err(CliError::InvalidNumber { option: CliOption::DurationSeconds, index: 1, error: NumberError::Empty })
    );
    assert_eq!(parse_stream_options(&args(&["--fps", "5", "--loop"])), Err(CliError::UnknownOption { index: 2 }));
}

#[test]
fn mismatch_descriptions() {
    assert_eq!(first_mismatch(&[1, 2], &[1, 2, 3]), Mismatch::Length { expected_len: 2, actual_len: 3 });
    assert_eq!(describe_mismatch(&[1, 2], &[1, 2, 3]), "expected 2 bytes, got 3 bytes");
    assert_eq!(
        first_mismatch(&[1, 2, 3], &[1, 9, 7]),
        Mismatch::Byte { offset: 1, expected_byte: 2, actual_byte: 9 }
    );
    assert_eq!(describe_mismatch(&[1, 2, 3], &[1, 9, 7]), "first differing byte at offset 1: expected 2, got 9");
    assert_eq!(first_mismatch(&[4, 5], &[4, 5]), Mismatch::Equal);
    assert_eq!(describe_mismatch(&[4, 5], &[4, 5]), "unknown content mismatch");
    assert_eq!(Mismatch::Equal.message(), "unknown content mismatch");
}

#[test]
fn payload_check() {
    assert_eq!(verify_frame_payload(&[1, 2], &[1, 2]), Ok(()));
    assert_eq!(
        verify_frame_payload(&[1, 2], &[1, 3]),
        Err("COM sample payload mismatch: first differing byte at offset 1: expected 2, got 3".to_string())
    );
    assert_eq!(
        verify_frame_payload(&[], &[0]),
        Err("COM sample payload mismatch: expected 0 bytes, got 1 bytes".to_string())
    );
}

#[test]
fn refusal_messages() {
    let args: Vec<String> = vec!["--scope".to_string(), "global".to_string()];
    assert_eq!(CliError::MissingValue(CliOption::DllPath).message("x", &args), "missing value for --dll-path");
    assert_eq!(
        CliError::UnknownOption { index: 0 }.message("stream-animated", &args),
        "unknown option for stream-animated: --scope"
    );
    assert_eq!(
        CliError::InvalidScope { index: 1 }.message("x", &args),
        "invalid scope 'global', expected 'user' or 'machine'"
    );
    assert_eq!(
        CliError::InvalidSubtype { index: 1 }.message("x", &args),
        "invalid subtype 'global', expected 'rgb32' or 'nv12'"
    );
    assert_eq!(CliError::TooManyPaths.message("x", &args), "dump-com-frame accepts at most one output path");
    assert_eq!(
        CliError::InvalidNumber { option: CliOption::Fps, index: 1, error: NumberError::InvalidDigit }.message("x", &args),
        "invalid value for --fps: invalid digit found in string"
    );
    assert_eq!(
        CliError::InvalidNumber { option: CliOption::Width, index: 1, error: NumberError::Overflow }.message("x", &args),
        "invalid value for --width: number too large to fit in target type"
    );
    assert_eq!(NumberError::Empty.text(), "cannot parse integer from empty string");
    // An index past the list reads as empty.
    assert_eq!(CliError::UnknownOption { index: 9 }.message("c", &args), "unknown option for c: ");
}
