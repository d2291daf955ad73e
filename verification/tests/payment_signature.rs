use rideviz_rs::error::AppError;
use rideviz_rs::routes::payment::{hex_decode, parse_i64, split, verify_stripe_signature};

const PAYLOAD: &[u8] = b"{\"type\":\"checkout.session.completed\"}";
const SIGNATURE: &str = "9c8b732114d294d0f18673b7e47094d10694f8577cba6e510f9fa476e0aee03a";

fn chars(text: &str) -> Vec<char> {
    text.chars().collect()
}

fn verify(header: &str, now: i64) -> Result<(), AppError> {
    verify_stripe_signature("whsec_test", header, &PAYLOAD.to_vec(), now)
}

fn invalid() -> Result<(), AppError> {
    Err(AppError::Unauthorized("Invalid Stripe signature".to_string()))
}

fn expired() -> Result<(), AppError> {
    Err(AppError::Unauthorized("Expired Stripe signature".to_string()))
}

#[test]
fn a_signed_webhook_is_taken() {
    let header = format!("t=1700000000,v1={SIGNATURE}");
    assert_eq!(verify(&header, 1_700_000_000), Ok(()));
    assert_eq!(verify(&header, 1_700_000_300), Ok(()));
    assert_eq!(verify(&header, 1_699_999_700), Ok(()));
    // White space around the parts, other keys and other signatures do no harm.
    let spaced = format!(" v0=abc , t = 1700000000 ,v1=00ff, v1 = {} ", SIGNATURE.to_uppercase());
    assert_eq!(verify(&spaced, 1_700_000_000), Ok(()));
    // A time before the epoch is signed with its minus sign.
    let early = "t=-5,v1=5fd3e8cbad165a42f4c99984bb48032f6b9604b0bb0fd59ad0d1c8c597b6798b";
    assert_eq!(verify(early, 0), Ok(()));
}

#[test]
fn a_webhook_signed_too_long_ago_is_expired() {
    let header = format!("t=1700000000,v1={SIGNATURE}");
    assert_eq!(verify(&header, 1_700_000_301), expired());
    assert_eq!(verify(&header, 1_699_999_699), expired());
    assert_eq!(verify(&header, i64::MIN), expired());
    assert_eq!(verify("t=0,v1=deadbeef", 1_700_000_000), expired());
}

#[test]
fn a_webhook_with_another_signature_is_refused() {
    assert_eq!(verify("t=1700000000,v1=deadbeef", 1_700_000_000), invalid());
    let other_time = format!("t=1700000001,v1={SIGNATURE}");
    assert_eq!(verify(&other_time, 1_700_000_000), invalid());
    let header = format!("t=1700000000,v1={SIGNATURE}");
    assert_eq!(
        verify_stripe_signature("whsec_other", &header, &PAYLOAD.to_vec(), 1_700_000_000),
        invalid()
    );
    assert_eq!(
        verify_stripe_signature("whsec_test", &header, &b"{}".to_vec(), 1_700_000_000),
        invalid()
    );
}

#[test]
fn a_header_that_does_not_read_is_refused() {
    assert_eq!(verify("", 0), invalid());
    assert_eq!(verify(&format!("v1={SIGNATURE}"), 1_700_000_000), invalid());
    assert_eq!(verify("t=1700000000", 1_700_000_000), invalid());
    assert_eq!(verify(&format!("t=now,v1={SIGNATURE}"), 1_700_000_000), invalid());
    // The last time counts, also where it does not read as a number.
    assert_eq!(verify(&format!("t=1700000000,v1={SIGNATURE},t="), 1_700_000_000), invalid());
    assert_eq!(verify(&format!("t=1,t=1700000000,v1={SIGNATURE}"), 1_700_000_000), Ok(()));
    // A signature that is not hexadecimal refuses the header at once.
    assert_eq!(verify(&format!("t=1700000000,v1={SIGNATURE},v1=xyz"), 1_700_000_000), invalid());
    assert_eq!(verify(&format!("t=1700000000,v1={SIGNATURE},v1=abc"), 1_700_000_000), invalid());
    assert_eq!(verify(&format!("t=1700000000,v1={SIGNATURE},v1"), 1_700_000_000), Ok(()));
}

#[test]
fn texts_are_split_at_separators() {
    let parts = |text: &str| -> Vec<String> {
        split(&chars(text), ',').into_iter().map(|p| p.into_iter().collect()).collect()
    };
    assert_eq!(parts("a,b,,c"), vec!["a", "b", "", "c"]);
    assert_eq!(parts(""), vec![""]);
    assert_eq!(parts(","), vec!["", ""]);
    assert_eq!(parts("abc"), vec!["abc"]);
    assert_eq!(parts("a,"), vec!["a", ""]);
}

#[test]
fn whole_numbers_are_read_with_their_sign() {
    assert_eq!(parse_i64(&chars("0")), Some(0));
    assert_eq!(parse_i64(&chars("-0")), Some(0));
    assert_eq!(parse_i64(&chars("+17")), Some(17));
    assert_eq!(parse_i64(&chars("-1700000000")), Some(-1_700_000_000));
    assert_eq!(parse_i64(&chars("9223372036854775807")), Some(i64::MAX));
    assert_eq!(parse_i64(&chars("9223372036854775808")), None);
    assert_eq!(parse_i64(&chars("-9223372036854775808")), Some(i64::MIN));
    assert_eq!(parse_i64(&chars("-9223372036854775809")), None);
    assert_eq!(parse_i64(&chars("123456789012345678901234567890")), None);
    assert_eq!(parse_i64(&chars("")), None);
    assert_eq!(parse_i64(&chars("-")), None);
    assert_eq!(parse_i64(&chars("1.0")), None);
    assert_eq!(parse_i64(&chars(" 1")), None);
    assert_eq!(parse_i64(&chars("1_000")), None);
}

#[test]
fn bytes_are_read_from_hexadecimal() {
    assert_eq!(hex_decode(&chars("")), Some(vec![]));
    assert_eq!(hex_decode(&chars("00ff7F")), Some(vec![0, 255, 127]));
    assert_eq!(hex_decode(&chars("deadBEEF")), Some(vec![0xde, 0xad, 0xbe, 0xef]));
    assert_eq!(hex_decode(&chars("abc")), None);
    assert_eq!(hex_decode(&chars("0g")), None);
    assert_eq!(hex_decode(&chars("0x00")), None);
}
