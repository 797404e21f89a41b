//! End-to-end flows of one invocation each, with the network exchange
//! replaced by the mock answer a service would give.

use groupstool::decode::decode_membership;
use groupstool::dispatch::{build_request, Method, Operation};
use groupstool::ident::{validate_group_id, validate_netid};
use groupstool::report::{format_write_report, WriteAction};

const BASE: &str = "https://groups.example.test/v3";

#[test]
fn groups_by_member_prints_the_group() {
    let member = validate_netid("jdoe").unwrap();
    let op = Operation::GroupsByMember { member };
    let request = build_request(BASE, &op);
    assert_eq!(request.method, Method::Get);
    assert_eq!(request.url, "https://groups.example.test/v3/search?member=jdoe");
    let mock_body = "{\"data\":[{\"id\":\"u_admins\"}]}".as_bytes();
    let list = decode_membership(mock_body).unwrap();
    assert_eq!(list.lines(), "u_admins\n");
}

#[test]
fn list_members_prints_both_members_in_order() {
    let group = validate_group_id("u_admins").unwrap();
    let op = Operation::ListMembers { group };
    let request = build_request(BASE, &op);
    assert_eq!(request.method, Method::Get);
    assert_eq!(request.url, "https://groups.example.test/v3/group/u_admins/member");
    let mock_body = "{\"data\":[{\"id\":\"jdoe\"},{\"id\":\"asmith\"}]}".as_bytes();
    let list = decode_membership(mock_body).unwrap();
    assert_eq!(list.lines(), "jdoe\nasmith\n");
}

#[test]
fn add_member_reports_status_201() {
    let group = validate_group_id("u_admins").unwrap();
    let member = validate_netid("jdoe").unwrap();
    let op = Operation::AddMember { group, member };
    let request = build_request(BASE, &op);
    assert_eq!(request.method, Method::Put);
    assert_eq!(request.url, "https://groups.example.test/v3/group/u_admins/member/jdoe");
    let mock_status: u32 = 201;
    let member = validate_netid("jdoe").unwrap();
    let group = validate_group_id("u_admins").unwrap();
    let line = format_write_report(WriteAction::Add, &member, &group, mock_status);
    assert_eq!(line, "Adding member jdoe to group u_admins: 201");
}

#[test]
fn remove_member_reports_status_404_as_data() {
    let group = validate_group_id("u_admins").unwrap();
    let member = validate_netid("jdoe").unwrap();
    let op = Operation::RemoveMember { group, member };
    let request = build_request(BASE, &op);
    assert_eq!(request.method, Method::Delete);
    assert_eq!(request.url, "https://groups.example.test/v3/group/u_admins/member/jdoe");
    // A 404 answering a write is reported verbatim, not raised: the
    // report line is ordinary data and the invocation still succeeds.
    let member = validate_netid("jdoe").unwrap();
    let group = validate_group_id("u_admins").unwrap();
    let line = format_write_report(WriteAction::Remove, &member, &group, 404);
    assert_eq!(line, "Removing member jdoe from group u_admins: 404");
}

#[test]
fn malformed_group_is_rejected_before_any_request_exists() {
    // The validator refuses the identifier, so no operation and no URL
    // can even be constructed; nothing reaches the network.
    let rejected = validate_group_id("notagroup");
    assert!(rejected.is_err());
}
