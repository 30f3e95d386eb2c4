use dicom_uploader::config::{
    parse_seconds, Config, ConfigError, DEFAULT_SLEEP_SECONDS, DIRECTORY_PATH, ORTHANC_ADDRESS,
    SLEEP_DURATION,
};

fn some(text: &str) -> Option<String> {
    Some(text.to_string())
}

#[test]
fn option_names_are_the_documented_ones() {
    assert_eq!(DIRECTORY_PATH, "DIRECTORY_PATH");
    assert_eq!(ORTHANC_ADDRESS, "ORTHANC_ADDRESS");
    assert_eq!(SLEEP_DURATION, "SLEEP_DURATION");
    assert_eq!(DEFAULT_SLEEP_SECONDS, 5);
}

#[test]
fn all_three_options_give_a_configuration() {
    let config = Config::load(some("/data/in"), some("http://orthanc:8042/instances"), some("30"))
        .unwrap();
    assert_eq!(config.directory_path(), "/data/in");
    assert_eq!(config.server_address(), "http://orthanc:8042/instances");
    assert_eq!(config.sleep_seconds(), 30);
}

#[test]
fn absent_interval_means_five_seconds() {
    let config = Config::load(some("in"), some("http://h/"), None).unwrap();
    assert_eq!(config.sleep_seconds(), 5);
}

#[test]
fn zero_interval_is_legal() {
    let config = Config::load(some("in"), some("http://h/"), some("0")).unwrap();
    assert_eq!(config.sleep_seconds(), 0);
}

#[test]
fn missing_directory_path_is_rejected() {
    let result = Config::load(None, some("http://h/"), some("5"));
    assert_eq!(result, Err(ConfigError::MissingDirectoryPath));
}

#[test]
fn missing_server_address_is_rejected() {
    let result = Config::load(some("in"), None, some("5"));
    assert_eq!(result, Err(ConfigError::MissingServerAddress));
}

#[test]
fn invalid_sleep_is_rejected() {
    let result = Config::load(some("in"), some("http://h/"), some("fast"));
    assert_eq!(result, Err(ConfigError::InvalidSleepDuration));
}

#[test]
fn missing_root_is_reported_before_anything_else() {
    assert_eq!(Config::load(None, None, some("fast")), Err(ConfigError::MissingDirectoryPath));
    assert_eq!(Config::load(None, None, None), Err(ConfigError::MissingDirectoryPath));
}

#[test]
fn missing_endpoint_is_reported_before_a_bad_interval() {
    assert_eq!(
        Config::load(some("in"), None, some("fast")),
        Err(ConfigError::MissingServerAddress)
    );
}

#[test]
fn neither_root_nor_endpoint_is_checked_further() {
    let config = Config::load(some(""), some("not a url"), None).unwrap();
    assert_eq!(config.directory_path(), "");
    assert_eq!(config.server_address(), "not a url");
}

#[test]
fn new_keeps_what_it_is_given() {
    let config = Config::new("in".to_string(), "http://h/".to_string(), 7);
    assert_eq!(config.directory_path(), "in");
    assert_eq!(config.server_address(), "http://h/");
    assert_eq!(config.sleep_seconds(), 7);
    assert_eq!(config.clone(), config);
}

#[test]
fn error_messages_name_the_option() {
    assert_eq!(ConfigError::MissingDirectoryPath.message(), "DIRECTORY_PATH must be set");
    assert_eq!(ConfigError::MissingServerAddress.message(), "ORTHANC_ADDRESS must be set");
    assert_eq!(
        ConfigError::InvalidSleepDuration.message(),
        "SLEEP_DURATION must be a valid integer"
    );
}

#[test]
fn decimal_texts_are_read_exactly() {
    assert_eq!(parse_seconds("0"), Some(0));
    assert_eq!(parse_seconds("5"), Some(5));
    assert_eq!(parse_seconds("42"), Some(42));
    assert_eq!(parse_seconds("00012"), Some(12));
    assert_eq!(parse_seconds("+7"), Some(7));
    assert_eq!(parse_seconds("86400"), Some(86400));
    assert_eq!(parse_seconds("18446744073709551615"), Some(u64::MAX));
}

#[test]
fn other_texts_are_no_interval() {
    assert_eq!(parse_seconds(""), None);
    assert_eq!(parse_seconds("+"), None);
    assert_eq!(parse_seconds("-1"), None);
    assert_eq!(parse_seconds("-0"), None);
    assert_eq!(parse_seconds("fast"), None);
    assert_eq!(parse_seconds("5s"), None);
    assert_eq!(parse_seconds(" 5"), None);
    assert_eq!(parse_seconds("5 "), None);
    assert_eq!(parse_seconds("1.5"), None);
    assert_eq!(parse_seconds("1_000"), None);
    assert_eq!(parse_seconds("++5"), None);
    assert_eq!(parse_seconds("18446744073709551616"), None);
    assert_eq!(parse_seconds("99999999999999999999999999"), None);
    assert_eq!(parse_seconds("\u{663}"), None);
    assert_eq!(parse_seconds("5\u{e9}"), None);
}

#[test]
fn reading_agrees_with_the_standard_parser() {
    let texts = [
        "", "+", "-", "0", "+0", "-0", "5", "+5", "-5", "05", "0005", "10", "99", "100",
        "4294967295", "4294967296", "18446744073709551614", "18446744073709551615",
        "18446744073709551616", "18446744073709551620", "28446744073709551615",
        "184467440737095516150", "+18446744073709551615", "+18446744073709551616", " 1", "1 ",
        "1\n", "\t1", "1,000", "1_000", "1e3", "0x10", "1.0", "5s", "fast", "++1", "+-1", "1+",
        "\u{661}", "1\u{661}", "\u{ff11}", "\u{e9}", "+\u{e9}", "12\u{20ac}34",
    ];
    for text in texts {
        assert_eq!(parse_seconds(text), text.parse::<u64>().ok(), "text {:?}", text);
    }
}
