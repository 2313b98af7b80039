use jfxr::jfxr::{
    check_version, field_value, has_short_digit_runs, i32_from_parts, parse_object, read_bool, read_i32, read_str, read_u32,
    read_waveform, waveform_from_name, waveform_name, JfxrFormatError, MAX_DIGIT_RUN, VERSION,
};
use jfxr::parameter::{Waveform, WAVEFORMS};

#[test]
fn waveform_tags_round_trip() {
    for w in WAVEFORMS {
        assert_eq!(waveform_from_name(waveform_name(w)), Some(w));
    }
    assert_eq!(waveform_name(Waveform::Pinknoise), "pinknoise");
    assert_eq!(waveform_from_name("sawtooth"), Some(Waveform::Sawtooth));
}

#[test]
fn unknown_waveform_tag() {
    assert_eq!(waveform_from_name("noise"), None);
    assert_eq!(waveform_from_name("Sine"), None);
    assert_eq!(waveform_from_name(""), None);
}

#[test]
fn version_check() {
    assert_eq!(VERSION, 1);
    assert_eq!(check_version(0), Ok(()));
    assert_eq!(check_version(1), Ok(()));
    assert_eq!(check_version(2), Err(JfxrFormatError::UnsupportedVersion));
}

#[test]
fn document_must_be_object() {
    assert_eq!(parse_object("[1, 2]").err(), Some(JfxrFormatError::NotAnObject));
    assert!(matches!(parse_object("{"), Err(JfxrFormatError::Json(_))));
    assert!(parse_object("{}").is_ok());
}

#[test]
fn json_error_converts() {
    let e = json::parse("{").unwrap_err();
    let again = json::parse("{").unwrap_err();
    assert_eq!(JfxrFormatError::from(e), JfxrFormatError::Json(again));
}

#[test]
fn field_classification() {
    assert_eq!(field_value::<u32>("a", None), Err(JfxrFormatError::MissingField("a")));
    assert_eq!(field_value::<u32>("a", Some(None)), Err(JfxrFormatError::InvalidField("a")));
    assert_eq!(field_value::<u32>("a", Some(Some(3))), Ok(3));
}

#[test]
fn reading_fields() {
    let o = parse_object(
        r#"{"_version": 1, "_name": "zap", "harmonics": -2, "normalization": false, "waveform": "square", "bad": "x"}"#,
    )
    .unwrap();
    assert_eq!(read_u32(&o, "_version"), Ok(1));
    assert_eq!(read_str(&o, "_name"), Ok("zap"));
    assert_eq!(read_i32(&o, "harmonics"), Ok(-2));
    assert_eq!(read_bool(&o, "normalization"), Ok(false));
    assert_eq!(read_waveform(&o, "waveform"), Ok(Waveform::Square));
    assert_eq!(read_u32(&o, "harmonics"), Err(JfxrFormatError::InvalidField("harmonics")));
    assert_eq!(read_bool(&o, "bad"), Err(JfxrFormatError::InvalidField("bad")));
    assert_eq!(read_waveform(&o, "bad"), Err(JfxrFormatError::InvalidField("bad")));
    assert_eq!(read_u32(&o, "missing"), Err(JfxrFormatError::MissingField("missing")));
    assert_eq!(read_waveform(&o, "missing"), Err(JfxrFormatError::MissingField("missing")));
}

#[test]
fn digit_runs_checked_before_parsing() {
    assert!(has_short_digit_runs(r#"{"a": 0.25, "b": [12, 345]}"#));
    assert!(has_short_digit_runs(""));
    let at_limit = format!("0.{}", "0".repeat(MAX_DIGIT_RUN));
    assert!(has_short_digit_runs(&at_limit));
    let long_fraction = format!("0.{}1", "0".repeat(32769));
    assert!(!has_short_digit_runs(&long_fraction));
    let long_integer = "7".repeat(MAX_DIGIT_RUN + 1);
    assert!(!has_short_digit_runs(&long_integer));
    assert!(has_short_digit_runs("\u{e9}123\u{e9}"));
}

#[test]
fn integers_from_number_parts() {
    assert_eq!(i32_from_parts(true, 5, 0), Some(5));
    assert_eq!(i32_from_parts(false, 5, 0), Some(-5));
    assert_eq!(i32_from_parts(false, 0, 0), Some(0));
    assert_eq!(i32_from_parts(true, 2147483647, 0), Some(i32::MAX));
    assert_eq!(i32_from_parts(true, 2147483648, 0), None);
    assert_eq!(i32_from_parts(false, 2147483648, 0), Some(i32::MIN));
    assert_eq!(i32_from_parts(false, 2147483649, 0), None);
    assert_eq!(i32_from_parts(true, 5, 1), None);
    assert_eq!(i32_from_parts(true, 25, -1), None);
    assert_eq!(i32_from_parts(false, u64::MAX, 0), None);
}

#[test]
fn extreme_integers_are_invalid() {
    let o = parse_object(
        r#"{"low": -9223372036854775808, "wrap": -18446744073709551615, "frac": 2.5, "min": -2147483648, "big": 4294967296}"#,
    )
    .unwrap();
    assert_eq!(read_i32(&o, "low"), Err(JfxrFormatError::InvalidField("low")));
    assert_eq!(read_i32(&o, "wrap"), Err(JfxrFormatError::InvalidField("wrap")));
    assert_eq!(read_i32(&o, "frac"), Err(JfxrFormatError::InvalidField("frac")));
    assert_eq!(read_i32(&o, "min"), Ok(i32::MIN));
    assert_eq!(read_u32(&o, "big"), Err(JfxrFormatError::InvalidField("big")));
    assert_eq!(read_u32(&o, "frac"), Err(JfxrFormatError::InvalidField("frac")));
}
