use shawl::cli::{parse_env_var, LogRotation, Priority};
use shawl::numbers::{codes_to_csv, i32_to_string, parse_csv_codes, parse_i32, parse_u64, u64_to_string};

fn s(text: &str) -> String {
    text.to_string()
}

#[test]
fn u64_renders_in_decimal() {
    assert_eq!(u64_to_string(0), "0");
    assert_eq!(u64_to_string(12345), "12345");
    assert_eq!(u64_to_string(u64::MAX), "18446744073709551615");
}

#[test]
fn i32_renders_with_sign() {
    assert_eq!(i32_to_string(0), "0");
    assert_eq!(i32_to_string(-7), "-7");
    assert_eq!(i32_to_string(i32::MIN), "-2147483648");
    assert_eq!(i32_to_string(i32::MAX), "2147483647");
}

#[test]
fn u64_parses_digits() {
    assert_eq!(parse_u64("0"), Some(0));
    assert_eq!(parse_u64("3000"), Some(3000));
    assert_eq!(parse_u64("18446744073709551615"), Some(u64::MAX));
}

#[test]
fn u64_rejects_bad_input() {
    assert_eq!(parse_u64(""), None);
    assert_eq!(parse_u64("12a"), None);
    assert_eq!(parse_u64("-1"), None);
    assert_eq!(parse_u64("18446744073709551616"), None);
}

#[test]
fn i32_parses_signed_values() {
    assert_eq!(parse_i32("-1"), Some(-1));
    assert_eq!(parse_i32("-2147483648"), Some(i32::MIN));
    assert_eq!(parse_i32("2147483647"), Some(i32::MAX));
    assert_eq!(parse_i32("2147483648"), None);
    assert_eq!(parse_i32("-"), None);
}

#[test]
fn integers_accept_one_leading_plus() {
    assert_eq!(parse_u64("+5"), Some(5));
    assert_eq!(parse_i32("+5"), Some(5));
    assert_eq!(parse_u64("+"), None);
    assert_eq!(parse_u64("++5"), None);
    assert_eq!(parse_i32("-+5"), None);
}

#[test]
fn codes_render_comma_separated() {
    assert_eq!(codes_to_csv(&vec![1, 10]), "1,10");
    assert_eq!(codes_to_csv(&vec![-1]), "-1");
}

#[test]
fn codes_parse_comma_separated() {
    assert_eq!(parse_csv_codes("1,10"), Some(vec![1, 10]));
    assert_eq!(parse_csv_codes("-1"), Some(vec![-1]));
    assert_eq!(parse_csv_codes("1,,2"), None);
    assert_eq!(parse_csv_codes(""), None);
}

#[test]
fn priority_renders_and_parses() {
    assert_eq!(Priority::AboveNormal.to_cli(), "above-normal");
    assert_eq!(Priority::from_cli("idle"), Some(Priority::Idle));
    assert_eq!(Priority::from_cli("zippy"), None);
    for p in [
        Priority::Realtime,
        Priority::High,
        Priority::AboveNormal,
        Priority::Normal,
        Priority::BelowNormal,
        Priority::Idle,
    ] {
        assert_eq!(Priority::from_cli(&p.to_cli()), Some(p));
    }
}

#[test]
fn log_rotation_renders_and_parses() {
    assert_eq!(LogRotation::Bytes(123).to_cli(), "bytes=123");
    assert_eq!(LogRotation::Daily.to_cli(), "daily");
    assert_eq!(LogRotation::Hourly.to_cli(), "hourly");
    assert_eq!(LogRotation::from_cli("bytes=123"), Some(LogRotation::Bytes(123)));
    assert_eq!(LogRotation::from_cli("daily"), Some(LogRotation::Daily));
    assert_eq!(LogRotation::from_cli("hourly"), Some(LogRotation::Hourly));
    assert_eq!(LogRotation::from_cli("weekly"), None);
    assert_eq!(LogRotation::from_cli("bytes=x"), None);
}

#[test]
fn log_rotation_defaults_to_two_mebibytes() {
    assert_eq!(LogRotation::default(), LogRotation::Bytes(2_097_152));
}

#[test]
fn env_var_splits_at_the_first_equals() {
    assert_eq!(parse_env_var("FOO=bar").unwrap(), (s("FOO"), s("bar")));
    assert_eq!(parse_env_var("FOO=bar=baz").unwrap(), (s("FOO"), s("bar=baz")));
    assert_eq!(parse_env_var("FOO=").unwrap(), (s("FOO"), s("")));
    assert!(parse_env_var("FOO").is_err());
}
