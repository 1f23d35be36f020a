use effy::number::{parse_bitrate, parse_decimal_in_range};
use effy::params::kind::ParamKind;
use effy::source::{folder_from_parent, name_and_ext_from, source_type_of, Source, SourceType};
use effy::text::{int_to_string, parse_i32};
use effy::ui::{select_next, select_prev, Pane};

#[test]
fn integers_parse_like_std() {
    for s in ["0", "-0", "+7", "-2147483648", "2147483647", "007"] {
        assert_eq!(parse_i32(s), s.parse::<i32>().ok(), "{}", s);
    }
    for s in ["", "-", "+", "2147483648", "-2147483649", "1a", " 1", "99999999999999999999"] {
        assert_eq!(parse_i32(s), None, "{}", s);
    }
    assert_eq!(int_to_string(-42), "-42");
    assert_eq!(int_to_string(0), "0");
    assert_eq!(int_to_string(1024), "1024");
}

#[test]
fn decimals_are_checked_and_canonical() {
    assert_eq!(parse_decimal_in_range("1.50", 1, 100, 100, 1).as_deref(), Some("1.5"));
    assert_eq!(parse_decimal_in_range(".5", 1, 100, 100, 1).as_deref(), Some("0.5"));
    assert_eq!(parse_decimal_in_range("100.0", 1, 100, 100, 1).as_deref(), Some("100"));
    assert_eq!(parse_decimal_in_range("0.01", 1, 100, 100, 1).as_deref(), Some("0.01"));
    assert_eq!(parse_decimal_in_range("0.009", 1, 100, 100, 1), None);
    assert_eq!(parse_decimal_in_range("100.01", 1, 100, 100, 1), None);
    assert_eq!(parse_decimal_in_range("1.2.3", 1, 100, 100, 1), None);
    assert_eq!(parse_decimal_in_range(".", 1, 100, 100, 1), None);
    assert_eq!(parse_decimal_in_range("-1", 1, 100, 100, 1), None);
}

#[test]
fn bitrates_are_checked_and_canonical() {
    assert_eq!(parse_bitrate("80").as_deref(), Some("80k"));
    assert_eq!(parse_bitrate(" 2m ").as_deref(), Some("2M"));
    assert_eq!(parse_bitrate("9999K").as_deref(), Some("9999k"));
    assert_eq!(parse_bitrate("0M").as_deref(), Some("0"));
    assert_eq!(parse_bitrate("abc"), None);
    assert_eq!(parse_bitrate("k"), None);
    assert_eq!(parse_bitrate(""), None);
    assert_eq!(parse_bitrate("  "), None);
    assert_eq!(parse_bitrate("+5"), None);
    assert_eq!(parse_bitrate("3"), None);
    assert_eq!(parse_bitrate("10000"), None);
    assert_eq!(parse_bitrate("1000M"), None);
    assert_eq!(parse_bitrate("5x"), None);
    assert_eq!(parse_bitrate("99999999999k"), None);
}

#[test]
fn validators_follow_each_parameter() {
    assert_eq!(ParamKind::AudioBitrate.validate("080").as_deref(), Ok("80"));
    assert_eq!(ParamKind::AudioBitrate.validate("0").as_deref(), Ok("0"));
    assert!(ParamKind::AudioBitrate.validate("3").is_err());
    assert!(ParamKind::AudioBitrate.validate("1025").is_err());
    assert_eq!(ParamKind::AudioCrystalizer.validate("-10").as_deref(), Ok("-10"));
    assert!(ParamKind::AudioCrystalizer.validate("11").is_err());
    assert_eq!(ParamKind::AudioPitch.validate("2").as_deref(), Ok("2"));
    assert!(ParamKind::SpeedFactor.validate("0.4").is_err());
    assert_eq!(ParamKind::SpeedFactor.validate("0.5").as_deref(), Ok("0.5"));
    assert_eq!(ParamKind::VideoScale.validate("8192").as_deref(), Ok("8192"));
    assert!(ParamKind::VideoScale.validate("63").is_err());
    assert_eq!(ParamKind::VideoFrameRate.validate("24").as_deref(), Ok("24"));
    assert!(ParamKind::VideoFrameRate.validate("241").is_err());
    assert_eq!(ParamKind::VideoBitrate.validate("4k").as_deref(), Ok("4k"));
    assert!(ParamKind::VideoBitrate.validate("abc").is_err());
    assert!(effy::params::video::VideoBitrate::validate("M").is_err());
    assert!(ParamKind::OutputFormat.validate("mp4").is_err());
    assert_eq!(ParamKind::AudioBitrate.format_value("0"), "auto");
    assert_eq!(ParamKind::VideoScale.format_value("720"), "720p");
}

#[test]
fn sources_are_files_or_urls() {
    assert_eq!(Source::new("HTTPS://example.com/v.mp4".to_owned()).source_type, SourceType::Url);
    assert_eq!(Source::new("http://x".to_owned()).input_folder(), ".");
    assert_eq!(Source::new("/a/b/c.mp4".to_owned()).source_type, SourceType::File);
    assert_eq!(Source::new("/a/b/c.mp4".to_owned()).input_folder(), "/a/b");
    assert_eq!(Source::new("c.mp4".to_owned()).input_folder(), ".");
    assert_eq!(Source::new("dir/movie.mkv".to_owned()).input_name_and_ext(), ("movie".to_owned(), "mkv".to_owned()));
    assert_eq!(Source::new("noext".to_owned()).input_name_and_ext(), ("noext".to_owned(), "mp4".to_owned()));
    assert_eq!(source_type_of("https://"), SourceType::Url);
    assert_eq!(source_type_of("http:/"), SourceType::File);
    assert_eq!(folder_from_parent(SourceType::File, Some(String::new())), ".");
    assert_eq!(folder_from_parent(SourceType::File, Some("x".to_owned())), "x");
    assert_eq!(name_and_ext_from(None, None), (String::new(), "mp4".to_owned()));
}

#[test]
fn panes_and_rows_wrap() {
    assert_eq!(Pane::Info.next(), Pane::Params);
    assert_eq!(Pane::Info.prev(), Pane::Output);
    assert_eq!(select_next(2, 3), 0);
    assert_eq!(select_prev(0, 3), 2);
    assert_eq!(select_prev(2, 3), 1);
}
