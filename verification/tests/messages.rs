use todo_api::error::AppError;
use todo_api::text::{append_i64_dec, append_u64_dec, parse_i64};

#[test]
fn storage_errors_map_to_500_with_uniform_body() {
    let e = AppError::new(String::from("db is locked"));
    assert_eq!(e.http_status(), 500);
    assert_eq!(e.response_body(), "Something went wrong: db is locked");
}

#[test]
fn empty_details_still_carry_the_prefix() {
    let e = AppError::new(String::new());
    assert_eq!(e.http_status(), 500);
    assert_eq!(e.response_body(), "Something went wrong: ");
}

#[test]
fn decimal_rendering_handles_edges() {
    let mut s = String::new();
    append_i64_dec(&mut s, 0);
    assert_eq!(s, "0");

    let mut s = String::new();
    append_i64_dec(&mut s, i64::MIN);
    assert_eq!(s, "-9223372036854775808");

    let mut s = String::new();
    append_i64_dec(&mut s, i64::MAX);
    assert_eq!(s, "9223372036854775807");

    let mut s = String::from("id ");
    append_i64_dec(&mut s, 905);
    assert_eq!(s, "id 905");

    let mut s = String::new();
    append_u64_dec(&mut s, 10);
    assert_eq!(s, "10");
}

#[test]
fn decimal_parsing_accepts_exactly_i64_notation() {
    assert_eq!(parse_i64(b"123"), Some(123));
    assert_eq!(parse_i64(b"0"), Some(0));
    assert_eq!(parse_i64(b"-1"), Some(-1));
    assert_eq!(parse_i64(b"+0"), Some(0));
    assert_eq!(parse_i64(b"007"), Some(7));
    assert_eq!(parse_i64(b""), None);
    assert_eq!(parse_i64(b"-"), None);
    assert_eq!(parse_i64(b"+"), None);
    assert_eq!(parse_i64(b"12a"), None);
    assert_eq!(parse_i64(b" 1"), None);
    assert_eq!(parse_i64(b"9223372036854775807"), Some(i64::MAX));
    assert_eq!(parse_i64(b"9223372036854775808"), None);
    assert_eq!(parse_i64(b"-9223372036854775808"), Some(i64::MIN));
    assert_eq!(parse_i64(b"-9223372036854775809"), None);
    assert_eq!(parse_i64(b"99999999999999999999999999"), None);
}
