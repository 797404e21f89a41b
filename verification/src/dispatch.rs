//! Maps a logical operation with validated identifiers to the HTTP method
//! and fully-qualified URL that the service expects. The dispatcher does
//! no validation of its own and performs no I/O; the result is a function
//! of the base endpoint and the operation alone.

use vstd::prelude::*;
use vstd::string::StringExecFns;

use crate::ident::{is_group_seq, is_lower_alnum, is_netid_seq, GroupId, NetId};

verus! {

/// A character that may stand in a URL path segment or query value
/// without escaping: an unreserved character, as both identifier
/// grammars are restricted to.
pub open spec fn is_url_safe(c: char) -> bool {
    is_lower_alnum(c) || c == '_' || c == '-'
}

/// Identifiers embed URL-safely: every character of a well-formed
/// NetID or group ID is unreserved, so splicing identifiers verbatim
/// into the URL templates needs no percent-escaping.
pub proof fn lemma_identifiers_url_safe(s: Seq<char>)
    requires
        is_netid_seq(s) || is_group_seq(s),
    ensures
        forall|i: int| 0 <= i < s.len() ==> is_url_safe(#[trigger] s[i]),
{
}

/// The HTTP method of a dispatched request.
#[derive(Debug, Clone, Copy, PartialEq, Eq, Structural)]
pub enum Method {
    Get,
    Put,
    Delete,
}

/// One of the four logical operations, carrying its validated identifiers.
pub enum Operation {
    /// Look up the groups a member belongs to.
    GroupsByMember { member: NetId },
    /// List the members of a group.
    ListMembers { group: GroupId },
    /// Add a member to a group.
    AddMember { group: GroupId, member: NetId },
    /// Remove a member from a group.
    RemoveMember { group: GroupId, member: NetId },
}

impl Operation {
    /// Every identifier the operation carries is well-formed.
    pub open spec fn wf(&self) -> bool {
        match *self {
            Operation::GroupsByMember { member } => member.wf(),
            Operation::ListMembers { group } => group.wf(),
            Operation::AddMember { group, member } => group.wf() && member.wf(),
            Operation::RemoveMember { group, member } => group.wf() && member.wf(),
        }
    }

    /// Whether the operation reads a membership list (and so expects a
    /// JSON body) rather than writing one membership (and so expects
    /// only a status code).
    pub open spec fn is_read(&self) -> bool {
        match *self {
            Operation::GroupsByMember { .. } => true,
            Operation::ListMembers { .. } => true,
            Operation::AddMember { .. } => false,
            Operation::RemoveMember { .. } => false,
        }
    }
}

/// The HTTP method each operation uses.
pub open spec fn spec_method(op: Operation) -> Method {
    match op {
        Operation::GroupsByMember { .. } => Method::Get,
        Operation::ListMembers { .. } => Method::Get,
        Operation::AddMember { .. } => Method::Put,
        Operation::RemoveMember { .. } => Method::Delete,
    }
}

/// The full URL each operation addresses under the given base endpoint.
pub open spec fn spec_url(base: Seq<char>, op: Operation) -> Seq<char> {
    match op {
        Operation::GroupsByMember { member } => base + "/search?member="@ + member@,
        Operation::ListMembers { group } => base + "/group/"@ + group@ + "/member"@,
        Operation::AddMember { group, member } => base + "/group/"@ + group@ + "/member/"@
            + member@,
        Operation::RemoveMember { group, member } => base + "/group/"@ + group@ + "/member/"@
            + member@,
    }
}

/// A fully-determined request: method plus absolute URL.
pub struct Request {
    pub method: Method,
    pub url: String,
}

/// Builds the method and URL for an operation against a base endpoint.
pub fn build_request(base: &str, op: &Operation) -> (r: Request)
    ensures
        r.method == spec_method(*op),
        r.url@ == spec_url(base@, *op),
{
    match op {
        Operation::GroupsByMember { member } => {
            let mut url = base.to_owned();
            url.append("/search?member=");
            url.append(member.as_str());
            Request { method: Method::Get, url }
        },
        Operation::ListMembers { group } => {
            let mut url = base.to_owned();
            url.append("/group/");
            url.append(group.as_str());
            url.append("/member");
            Request { method: Method::Get, url }
        },
        Operation::AddMember { group, member } => {
            let mut url = base.to_owned();
            url.append("/group/");
            url.append(group.as_str());
            url.append("/member/");
            url.append(member.as_str());
            Request { method: Method::Put, url }
        },
        Operation::RemoveMember { group, member } => {
            let mut url = base.to_owned();
            url.append("/group/");
            url.append(group.as_str());
            url.append("/member/");
            url.append(member.as_str());
            Request { method: Method::Delete, url }
        },
    }
}

/// Dispatch determinism: the method and URL of a request are a function
/// of the base endpoint and the operation alone, so any two requests
/// built from the same inputs are identical.
pub proof fn lemma_dispatch_deterministic(
    base: Seq<char>,
    op: Operation,
    m1: Method,
    u1: Seq<char>,
    m2: Method,
    u2: Seq<char>,
)
    requires
        m1 == spec_method(op),
        u1 == spec_url(base, op),
        m2 == spec_method(op),
        u2 == spec_url(base, op),
    ensures
        m1 == m2,
        u1 == u2,
{
}

} // verus!
