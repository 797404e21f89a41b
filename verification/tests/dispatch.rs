use groupstool::dispatch::{build_request, Method, Operation};
use groupstool::ident::{validate_group_id, validate_netid};

const BASE: &str = "https://groups.example.test/v3";

#[test]
fn groups_by_member_is_get_search() {
    let member = validate_netid("jdoe").unwrap();
    let op = Operation::GroupsByMember { member };
    let r = build_request(BASE, &op);
    assert_eq!(r.method, Method::Get);
    assert_eq!(r.url, "https://groups.example.test/v3/search?member=jdoe");
}

#[test]
fn list_members_is_get_group_member() {
    let group = validate_group_id("u_admins").unwrap();
    let op = Operation::ListMembers { group };
    let r = build_request(BASE, &op);
    assert_eq!(r.method, Method::Get);
    assert_eq!(r.url, "https://groups.example.test/v3/group/u_admins/member");
}

#[test]
fn add_member_is_put_group_member_netid() {
    let group = validate_group_id("u_admins").unwrap();
    let member = validate_netid("jdoe").unwrap();
    let op = Operation::AddMember { group, member };
    let r = build_request(BASE, &op);
    assert_eq!(r.method, Method::Put);
    assert_eq!(r.url, "https://groups.example.test/v3/group/u_admins/member/jdoe");
}

#[test]
fn remove_member_is_delete_group_member_netid() {
    let group = validate_group_id("u_admins").unwrap();
    let member = validate_netid("jdoe").unwrap();
    let op = Operation::RemoveMember { group, member };
    let r = build_request(BASE, &op);
    assert_eq!(r.method, Method::Delete);
    assert_eq!(r.url, "https://groups.example.test/v3/group/u_admins/member/jdoe");
}

#[test]
fn dispatch_is_deterministic() {
    let group = validate_group_id("uw_ops").unwrap();
    let member = validate_netid("asmith").unwrap();
    let op = Operation::AddMember { group, member };
    let first = build_request(BASE, &op);
    let second = build_request(BASE, &op);
    assert_eq!(first.method, second.method);
    assert_eq!(first.url, second.url);
}
