use groupstool::errors::{ClientError, DecodeError, ValidationError};
use groupstool::ident::{validate_group_id, validate_netid};
use groupstool::report::{format_status, format_write_report, OperationResult, WriteAction};

#[test]
fn status_renders_in_decimal() {
    assert_eq!(format_status(201), "201");
    assert_eq!(format_status(404), "404");
    assert_eq!(format_status(0), "0");
    assert_eq!(format_status(10), "10");
    assert_eq!(format_status(4294967295), "4294967295");
}

#[test]
fn add_report_line() {
    let member = validate_netid("jdoe").unwrap();
    let group = validate_group_id("u_admins").unwrap();
    let line = format_write_report(WriteAction::Add, &member, &group, 201);
    assert_eq!(line, "Adding member jdoe to group u_admins: 201");
}

#[test]
fn remove_report_line() {
    let member = validate_netid("jdoe").unwrap();
    let group = validate_group_id("u_admins").unwrap();
    let line = format_write_report(WriteAction::Remove, &member, &group, 404);
    assert_eq!(line, "Removing member jdoe from group u_admins: 404");
}

#[test]
fn operation_result_reports_its_own_line() {
    let member = validate_netid("asmith").unwrap();
    let group = validate_group_id("uw_ops").unwrap();
    let outcome = OperationResult { action: WriteAction::Remove, member, group, status: 403 };
    assert_eq!(outcome.report(), "Removing member asmith from group uw_ops: 403");
}

#[test]
fn client_error_messages() {
    let v = ClientError::Validation(ValidationError::InvalidNetId);
    assert_eq!(v.message(), "NetID may be too long or contain invalid characters.");
    let c = ClientError::Credential("could not read cert.pem".to_string());
    assert_eq!(c.message(), "could not read cert.pem");
    let n = ClientError::Network("connection refused".to_string());
    assert_eq!(n.message(), "connection refused");
    let d = ClientError::Decode(DecodeError);
    assert_eq!(d.message(), "Response body does not match the expected membership envelope.");
}
