//! Reporting of write-operation outcomes. A write (add or remove) is
//! answered by a bare HTTP status code; whatever the code — success or
//! not — it is reported verbatim to the operator as data, never raised
//! as an error, so the service keeps authority over success semantics.

use vstd::prelude::*;
use vstd::string::StringExecFns;

use crate::decode::push_char;
use crate::ident::{GroupId, NetId};

verus! {

/// The character for one decimal digit value.
pub open spec fn digit_char(d: nat) -> char
    recommends
        d < 10,
{
    (((0x30 + d) as u8) as char)
}

/// The decimal digits of `n`, most significant first, no sign and no
/// leading zeros (a single zero for 0).
pub open spec fn spec_digits(n: nat) -> Seq<char>
    decreases n,
{
    if n < 10 {
        seq![digit_char(n)]
    } else {
        spec_digits(n / 10) + seq![digit_char(n % 10)]
    }
}

/// Appends the decimal digits of `n`.
fn push_digits(n: u32, out: &mut String)
    ensures
        final(out)@ == old(out)@ + spec_digits(n as nat),
    decreases n,
{
    if n >= 10 {
        push_digits(n / 10, out);
    }
    let d = (n % 10) as u8;
    push_char(out, (0x30 + d) as char);
    proof {
        assert(out@ =~= old(out)@ + spec_digits(n as nat));
    }
}

/// Renders a status code in decimal, exactly as the operator sees it.
pub fn format_status(status: u32) -> (r: String)
    ensures
        r@ == spec_digits(status as nat),
{
    let mut out = String::new();
    push_digits(status, &mut out);
    proof {
        assert(out@ =~= spec_digits(status as nat));
    }
    out
}

/// Which write operation a report line describes.
#[derive(Debug, Clone, Copy, PartialEq, Eq, Structural)]
pub enum WriteAction {
    Add,
    Remove,
}

/// The report line for a finished write: the attempted member and
/// group, and the status code the service answered, in decimal.
pub open spec fn spec_write_report(
    action: WriteAction,
    member: Seq<char>,
    group: Seq<char>,
    status: nat,
) -> Seq<char> {
    match action {
        WriteAction::Add => "Adding member "@ + member + " to group "@ + group + ": "@
            + spec_digits(status),
        WriteAction::Remove => "Removing member "@ + member + " from group "@ + group + ": "@
            + spec_digits(status),
    }
}

/// Builds the exact report line for a write outcome.
pub fn format_write_report(
    action: WriteAction,
    member: &NetId,
    group: &GroupId,
    status: u32,
) -> (r: String)
    ensures
        r@ == spec_write_report(action, member@, group@, status as nat),
{
    let mut out = match action {
        WriteAction::Add => "Adding member ".to_owned(),
        WriteAction::Remove => "Removing member ".to_owned(),
    };
    out.append(member.as_str());
    match action {
        WriteAction::Add => out.append(" to group "),
        WriteAction::Remove => out.append(" from group "),
    }
    out.append(group.as_str());
    out.append(": ");
    push_digits(status, &mut out);
    proof {
        assert(out@ =~= spec_write_report(action, member@, group@, status as nat));
    }
    out
}

/// The outcome of a write operation: the attempted membership and the
/// status code the service answered. No body is parsed for writes.
pub struct OperationResult {
    pub action: WriteAction,
    pub member: NetId,
    pub group: GroupId,
    pub status: u32,
}

impl OperationResult {
    /// The report line for this outcome.
    pub fn report(&self) -> (r: String)
        ensures
            r@ == spec_write_report(self.action, self.member@, self.group@, self.status as nat),
    {
        format_write_report(self.action, &self.member, &self.group, self.status)
    }
}

} // verus!
