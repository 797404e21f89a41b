use groupstool::errors::ValidationError;
use groupstool::ident::{validate_group_id, validate_netid};

#[test]
fn netid_accepts_simple() {
    let id = validate_netid("jdoe").unwrap();
    assert_eq!(id.as_str(), "jdoe");
}

#[test]
fn netid_accepts_length_bounds() {
    assert!(validate_netid("a").is_ok());
    assert!(validate_netid("a1b2c3d4").is_ok());
    assert!(validate_netid("zzzzzzzz").is_ok());
}

#[test]
fn netid_accepts_digits_after_first() {
    assert!(validate_netid("j2doe3").is_ok());
}

#[test]
fn netid_rejects_empty() {
    assert!(validate_netid("").is_err());
}

#[test]
fn netid_rejects_too_long() {
    assert!(validate_netid("abcdefghi").is_err());
}

#[test]
fn netid_rejects_leading_digit() {
    assert!(validate_netid("1doe").is_err());
}

#[test]
fn netid_rejects_uppercase() {
    assert!(validate_netid("Jdoe").is_err());
    assert!(validate_netid("jDoe").is_err());
}

#[test]
fn netid_rejects_punctuation_and_space() {
    assert!(validate_netid("jd oe").is_err());
    assert!(validate_netid("jd-oe").is_err());
    assert!(validate_netid("jd_oe").is_err());
}

#[test]
fn netid_rejects_non_ascii() {
    assert!(validate_netid("jdo\u{e9}").is_err());
}

#[test]
fn netid_error_message() {
    let e = validate_netid("").unwrap_err();
    assert_eq!(e, ValidationError::InvalidNetId);
    assert_eq!(e.message(), "NetID may be too long or contain invalid characters.");
}

#[test]
fn group_accepts_u_prefix() {
    let g = validate_group_id("u_admins").unwrap();
    assert_eq!(g.as_str(), "u_admins");
}

#[test]
fn group_accepts_uw_prefix() {
    let g = validate_group_id("uw_staff").unwrap();
    assert_eq!(g.as_str(), "uw_staff");
}

#[test]
fn group_accepts_short_and_mixed_tails() {
    assert!(validate_group_id("u_a").is_ok());
    assert!(validate_group_id("u_0").is_ok());
    assert!(validate_group_id("u_a-b_c").is_ok());
    assert!(validate_group_id("uw_x_y-z9").is_ok());
    assert!(validate_group_id("u_w_x").is_ok());
}

#[test]
fn group_rejects_no_prefix() {
    assert!(validate_group_id("notagroup").is_err());
    assert!(validate_group_id("w_x").is_err());
    assert!(validate_group_id("ux_abc").is_err());
}

#[test]
fn group_rejects_empty_tail() {
    assert!(validate_group_id("u_").is_err());
    assert!(validate_group_id("uw_").is_err());
    assert!(validate_group_id("").is_err());
    assert!(validate_group_id("u").is_err());
}

#[test]
fn group_rejects_bad_first_tail_char() {
    assert!(validate_group_id("u__a").is_err());
    assert!(validate_group_id("uw_-a").is_err());
}

#[test]
fn group_rejects_uppercase() {
    assert!(validate_group_id("U_admins").is_err());
    assert!(validate_group_id("u_Admins").is_err());
}

#[test]
fn group_error_message() {
    let e = validate_group_id("notagroup").unwrap_err();
    assert_eq!(e, ValidationError::InvalidGroupId);
    assert_eq!(e.message(), "Incomplete group ID or contains invalid characters.");
}
