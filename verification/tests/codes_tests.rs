use roundest_robin_router::codes::{
    format_u32, parse_code_number, LoginAttemptId, TwoFACode,
};

#[test]
fn parse_code_number_reads_digits() {
    assert_eq!(parse_code_number("0"), Some(0));
    assert_eq!(parse_code_number("123456"), Some(123456));
    assert_eq!(parse_code_number("4294967295"), Some(u32::MAX));
}

#[test]
fn parse_code_number_rejects_bad_input() {
    assert_eq!(parse_code_number(""), None);
    assert_eq!(parse_code_number("12a456"), None);
    assert_eq!(parse_code_number("-1"), None);
    assert_eq!(parse_code_number(" 123456"), None);
    // One past u32::MAX no longer fits.
    assert_eq!(parse_code_number("4294967296"), None);
}

#[test]
fn format_u32_renders_decimal() {
    assert_eq!(format_u32(0), "0");
    assert_eq!(format_u32(7), "7");
    assert_eq!(format_u32(123456), "123456");
    assert_eq!(format_u32(u32::MAX), "4294967295");
}

#[test]
fn two_fa_code_accepts_six_digit_values() {
    let code = TwoFACode::parse("123456".to_string()).unwrap();
    assert_eq!(code.as_str(), "123456");

    // The range edges.
    assert!(TwoFACode::parse("100000".to_string()).is_ok());
    assert!(TwoFACode::parse("999999".to_string()).is_ok());

    // Leading zeroes are kept as presented when the value is in range.
    let padded = TwoFACode::parse("0123456".to_string()).unwrap();
    assert_eq!(padded.as_str(), "0123456");

    // One leading plus sign is allowed, and the text is kept verbatim.
    let signed = TwoFACode::parse("+123456".to_string()).unwrap();
    assert_eq!(signed.as_str(), "+123456");
}

#[test]
fn two_fa_code_rejects_out_of_range_or_malformed() {
    assert_eq!(
        TwoFACode::parse("99999".to_string()),
        Err("Invalid 2FA code".to_string())
    );
    assert_eq!(
        TwoFACode::parse("1000000".to_string()),
        Err("Invalid 2FA code".to_string())
    );
    assert_eq!(
        TwoFACode::parse("12e456".to_string()),
        Err("Invalid 2FA code".to_string())
    );
    assert_eq!(
        TwoFACode::parse("".to_string()),
        Err("Invalid 2FA code".to_string())
    );
    assert_eq!(
        TwoFACode::parse("4294967296".to_string()),
        Err("Invalid 2FA code".to_string())
    );
    // A sign with no digits, a doubled sign, and a minus sign are all
    // rejected, as the unsigned numeral grammar demands.
    assert_eq!(
        TwoFACode::parse("+".to_string()),
        Err("Invalid 2FA code".to_string())
    );
    assert_eq!(
        TwoFACode::parse("++123456".to_string()),
        Err("Invalid 2FA code".to_string())
    );
    assert_eq!(
        TwoFACode::parse("-123456".to_string()),
        Err("Invalid 2FA code".to_string())
    );
}

#[test]
fn two_fa_code_default_is_six_digit_value() {
    let code = TwoFACode::default();
    let value: u32 = code.as_str().parse().unwrap();
    assert!((100_000..=999_999).contains(&value));
    assert_eq!(code.as_str().len(), 6);
}

#[test]
fn login_attempt_id_accepts_uuid_forms() {
    let canonical = "550e8400-e29b-41d4-a716-446655440000";
    let id = LoginAttemptId::parse(canonical.to_string()).unwrap();
    assert_eq!(id.as_str(), canonical);

    // Upper case input is normalized to the canonical lowercase form.
    let upper = LoginAttemptId::parse("550E8400-E29B-41D4-A716-446655440000".to_string()).unwrap();
    assert_eq!(upper.as_str(), canonical);

    // The simple (unhyphenated) form is normalized too.
    let simple = LoginAttemptId::parse("550e8400e29b41d4a716446655440000".to_string()).unwrap();
    assert_eq!(simple.as_str(), canonical);
}

#[test]
fn login_attempt_id_rejects_malformed_input() {
    assert_eq!(
        LoginAttemptId::parse("not-a-uuid".to_string()),
        Err("Invalid login attempt id".to_string())
    );
    assert_eq!(
        LoginAttemptId::parse("".to_string()),
        Err("Invalid login attempt id".to_string())
    );
}

#[test]
fn login_attempt_id_default_is_fresh_uuid() {
    let id = LoginAttemptId::default();
    assert_eq!(id.as_str().len(), 36);
    // The rendered form parses back to itself.
    let reparsed = LoginAttemptId::parse(id.as_str().to_string()).unwrap();
    assert_eq!(reparsed, id);
}
