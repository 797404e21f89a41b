use groupstool::decode::decode_membership;

#[test]
fn decodes_two_ids_in_order() {
    let body = "{\"data\":[{\"id\":\"alice\"},{\"id\":\"bob\"}]}".as_bytes();
    let list = decode_membership(body).unwrap();
    assert_eq!(list.ids, vec!["alice".to_string(), "bob".to_string()]);
}

#[test]
fn decodes_empty_list() {
    let body = "{\"data\":[]}".as_bytes();
    let list = decode_membership(body).unwrap();
    assert!(list.ids.is_empty());
}

#[test]
fn rejects_data_not_a_list() {
    let body = "{\"data\":\"not-a-list\"}".as_bytes();
    assert!(decode_membership(body).is_err());
}

#[test]
fn decodes_with_whitespace() {
    let body = " {\n\t\"data\" :\r\n [ { \"id\" : \"jdoe\" } , { \"id\" : \"asmith\" } ] } \n".as_bytes();
    let list = decode_membership(body).unwrap();
    assert_eq!(list.ids, vec!["jdoe".to_string(), "asmith".to_string()]);
}

#[test]
fn decodes_single_id() {
    let body = "{\"data\":[{\"id\":\"u_admins\"}]}".as_bytes();
    let list = decode_membership(body).unwrap();
    assert_eq!(list.ids, vec!["u_admins".to_string()]);
}

#[test]
fn decodes_empty_identifier() {
    let body = "{\"data\":[{\"id\":\"\"}]}".as_bytes();
    let list = decode_membership(body).unwrap();
    assert_eq!(list.ids, vec![String::new()]);
}

#[test]
fn rejects_empty_body() {
    assert!(decode_membership("".as_bytes()).is_err());
    assert!(decode_membership("   ".as_bytes()).is_err());
}

#[test]
fn rejects_wrong_key() {
    let body = "{\"date\":[{\"id\":\"alice\"}]}".as_bytes();
    assert!(decode_membership(body).is_err());
}

#[test]
fn rejects_member_without_id_key() {
    let body = "{\"data\":[{\"uid\":\"alice\"}]}".as_bytes();
    assert!(decode_membership(body).is_err());
}

#[test]
fn rejects_trailing_text() {
    let body = "{\"data\":[]} extra".as_bytes();
    assert!(decode_membership(body).is_err());
}

#[test]
fn rejects_unterminated_string() {
    let body = "{\"data\":[{\"id\":\"alice}]}".as_bytes();
    assert!(decode_membership(body).is_err());
}

#[test]
fn rejects_missing_comma() {
    let body = "{\"data\":[{\"id\":\"a\"}{\"id\":\"b\"}]}".as_bytes();
    assert!(decode_membership(body).is_err());
}

#[test]
fn rejects_non_ascii_bytes() {
    let body: &[u8] = &[0xff, 0xfe, 0x7b, 0x7d];
    assert!(decode_membership(body).is_err());
}

#[test]
fn rejects_bare_list() {
    let body = "[{\"id\":\"alice\"}]".as_bytes();
    assert!(decode_membership(body).is_err());
}

#[test]
fn decodes_escaped_backslash() {
    let body = "{\"data\":[{\"id\":\"a\\\\b\"}]}".as_bytes();
    let list = decode_membership(body).unwrap();
    assert_eq!(list.ids, vec!["a\\b".to_string()]);
}

#[test]
fn decodes_simple_escapes() {
    let body = "{\"data\":[{\"id\":\"a\\\"b\\/c\\nd\\te\\r\\b\\f\"}]}".as_bytes();
    let list = decode_membership(body).unwrap();
    assert_eq!(list.ids, vec!["a\"b/c\nd\te\r\u{0008}\u{000C}".to_string()]);
}

#[test]
fn decodes_unicode_escape() {
    let body = "{\"data\":[{\"id\":\"caf\\u00e9\"}]}".as_bytes();
    let list = decode_membership(body).unwrap();
    assert_eq!(list.ids, vec!["caf\u{e9}".to_string()]);
}

#[test]
fn decodes_raw_utf8_identifier() {
    let body = "{\"data\":[{\"id\":\"caf\u{e9}\"}]}".as_bytes();
    let list = decode_membership(body).unwrap();
    assert_eq!(list.ids, vec!["caf\u{e9}".to_string()]);
}

#[test]
fn decodes_surrogate_pair_escape() {
    let body = "{\"data\":[{\"id\":\"\\uD83D\\uDE00\"}]}".as_bytes();
    let list = decode_membership(body).unwrap();
    assert_eq!(list.ids, vec!["\u{1F600}".to_string()]);
}

#[test]
fn rejects_lone_surrogate_escape() {
    let body = "{\"data\":[{\"id\":\"\\uD83Dx\"}]}".as_bytes();
    assert!(decode_membership(body).is_err());
    let body2 = "{\"data\":[{\"id\":\"\\uDE00\"}]}".as_bytes();
    assert!(decode_membership(body2).is_err());
}

#[test]
fn rejects_unknown_escape() {
    let body = "{\"data\":[{\"id\":\"a\\x\"}]}".as_bytes();
    assert!(decode_membership(body).is_err());
}

#[test]
fn rejects_raw_control_character() {
    let body = "{\"data\":[{\"id\":\"a\nb\"}]}".as_bytes();
    assert!(decode_membership(body).is_err());
}

#[test]
fn skips_unknown_member_fields() {
    let body = "{\"data\":[{\"role\":\"admin\",\"id\":\"jdoe\",\"meta\":{\"depth\":[1,-2.5e-3,true,null,\"x\"]}}]}"
        .as_bytes();
    let list = decode_membership(body).unwrap();
    assert_eq!(list.ids, vec!["jdoe".to_string()]);
}

#[test]
fn skips_unknown_envelope_fields() {
    let body = "{\"count\":2,\"data\":[{\"id\":\"a\"}],\"next\":null}".as_bytes();
    let list = decode_membership(body).unwrap();
    assert_eq!(list.ids, vec!["a".to_string()]);
}

#[test]
fn recognizes_escaped_id_key() {
    let body = "{\"data\":[{\"\\u0069d\":\"a\"}]}".as_bytes();
    let list = decode_membership(body).unwrap();
    assert_eq!(list.ids, vec!["a".to_string()]);
}

#[test]
fn rejects_duplicate_id_field() {
    let body = "{\"data\":[{\"id\":\"a\",\"id\":\"b\"}]}".as_bytes();
    assert!(decode_membership(body).is_err());
}

#[test]
fn rejects_duplicate_data_field() {
    let body = "{\"data\":[],\"data\":[]}".as_bytes();
    assert!(decode_membership(body).is_err());
}

#[test]
fn rejects_non_string_id() {
    let body = "{\"data\":[{\"id\":123}]}".as_bytes();
    assert!(decode_membership(body).is_err());
}

#[test]
fn rejects_empty_member_object() {
    let body = "{\"data\":[{}]}".as_bytes();
    assert!(decode_membership(body).is_err());
}

#[test]
fn rejects_trailing_commas() {
    let body = "{\"data\":[{\"id\":\"a\"},]}".as_bytes();
    assert!(decode_membership(body).is_err());
    let body2 = "{\"data\":[{\"id\":\"a\",}]}".as_bytes();
    assert!(decode_membership(body2).is_err());
}

#[test]
fn rejects_malformed_number_in_skipped_field() {
    let body = "{\"x\":01,\"data\":[]}".as_bytes();
    assert!(decode_membership(body).is_err());
}

#[test]
fn lines_has_one_identifier_per_line() {
    let body = "{\"data\":[{\"id\":\"jdoe\"},{\"id\":\"asmith\"}]}".as_bytes();
    let list = decode_membership(body).unwrap();
    assert_eq!(list.lines(), "jdoe\nasmith\n");
}

#[test]
fn lines_of_empty_list_is_empty() {
    let body = "{\"data\":[]}".as_bytes();
    let list = decode_membership(body).unwrap();
    assert_eq!(list.lines(), "");
}
