use ibroadcast_tui::error::AppError;
use ibroadcast_tui::logging::{BoundedLog, LOG_FILE_MAX_BYTES};
use ibroadcast_tui::text::{
    contains_str, is_control, is_white_space, parse_i64_text, parse_u64_text, push_decimal,
    push_decimal2, push_large_decimal, push_signed_decimal, trimmed,
};

#[test]
fn characters_are_classed_as_in_unicode() {
    for c in '\0'..=char::MAX {
        assert_eq!(is_white_space(c), c.is_whitespace());
        assert_eq!(is_control(c), c.is_control());
    }
}

#[test]
fn texts_are_trimmed() {
    for text in ["", "  ", "a", "\u{3000}a b\n", "\u{200b}x"] {
        assert_eq!(trimmed(text), text.trim());
    }
}

#[test]
fn numbers_are_parsed() {
    for text in [
        "",
        "0",
        "+7",
        "-7",
        "+",
        "-",
        "007",
        "18446744073709551615",
        "18446744073709551616",
        "9223372036854775807",
        "9223372036854775808",
        "-9223372036854775808",
        "-9223372036854775809",
        "1 ",
        "1_0",
        "\u{664}",
        "-0",
    ] {
        assert_eq!(parse_u64_text(text), text.parse::<u64>().ok(), "{text}");
        assert_eq!(parse_i64_text(text), text.parse::<i64>().ok(), "{text}");
    }
}

#[test]
fn numbers_are_written() {
    for number in [0, 7, 10, 99, 100, 12345, u64::MAX] {
        let mut text = "x".to_owned();
        push_decimal(&mut text, number);
        assert_eq!(text, format!("x{number}"));
        let mut text = String::new();
        push_decimal2(&mut text, number);
        assert_eq!(text, format!("{number:02}"));
    }
    for number in [0, -1, 5, i64::MIN, i64::MAX] {
        let mut text = String::new();
        push_signed_decimal(&mut text, number);
        assert_eq!(text, number.to_string());
    }
    for number in [0, 10, u128::MAX] {
        let mut text = String::new();
        push_large_decimal(&mut text, number);
        assert_eq!(text, number.to_string());
    }
}

#[test]
fn texts_are_searched() {
    assert!(contains_str("haystack", "sta"));
    assert!(contains_str("haystack", ""));
    assert!(!contains_str("haystack", "stx"));
    assert!(!contains_str("", "a"));
}

#[test]
fn errors_tell_what_happened() {
    assert_eq!(
        AppError::Api("x".to_owned()).message(),
        "api error: x"
    );
    assert_eq!(
        AppError::Auth("x".to_owned()).message(),
        "authentication error: x"
    );
    assert_eq!(
        AppError::download_path("/p".to_owned(), AppError::MissingToken).message(),
        format!(
            "download failed for /p: {}",
            AppError::MissingToken.message()
        )
    );
    let told = [
        (AppError::Library("x".to_owned()), "invalid library response: x"),
        (AppError::MissingToken, "missing token; log in again"),
        (AppError::Playback("x".to_owned()), "playback error: x"),
        (AppError::Http("x".to_owned()), "http error: x"),
        (AppError::Io("x".to_owned()), "io error: x"),
        (AppError::Json("x".to_owned()), "json error: x"),
        (AppError::TomlDecode("x".to_owned()), "toml decode error: x"),
        (AppError::TomlEncode("x".to_owned()), "toml encode error: x"),
    ];
    for (error, message) in told {
        assert_eq!(error.message(), message);
    }
    assert_eq!(
        AppError::auth_response("400 Bad Request", "body").message(),
        "authentication error: server returned 400 Bad Request: body"
    );
}

#[test]
fn logs_stay_within_bounds() {
    let (mut log, _) = BoundedLog::open(LOG_FILE_MAX_BYTES - 10);
    assert!(!log.must_reset(10));
    assert!(log.must_reset(11));
    log.wrote(10);
    assert!(log.must_reset(1));
    log.reset();
    assert!(!log.must_reset(100));
    let (_, truncates) = BoundedLog::open(LOG_FILE_MAX_BYTES + 1);
    assert!(truncates);

    let (mut log, _) = BoundedLog::open(LOG_FILE_MAX_BYTES);
    for len in [1, 700_000, 400_000, 1_048_576, 3] {
        if log.must_reset(len) {
            log.reset();
        }
        log.wrote(len);
        assert!(log.bytes_written <= LOG_FILE_MAX_BYTES);
    }
    assert_eq!(log.bytes_written, 3);
}
