//! Syntactic validation of the two identifier kinds the service knows:
//! personal NetIDs and namespaced group IDs. Validation is pure and runs
//! before anything touches the network.

use vstd::prelude::*;
use vstd::string::StrSliceExecFns;

use crate::errors::ValidationError;

verus! {

/// A lowercase ASCII letter.
pub open spec fn is_lower_letter(c: char) -> bool {
    'a' <= c && c <= 'z'
}

/// An ASCII decimal digit.
pub open spec fn is_ascii_digit(c: char) -> bool {
    '0' <= c && c <= '9'
}

/// A lowercase letter or a digit.
pub open spec fn is_lower_alnum(c: char) -> bool {
    is_lower_letter(c) || is_ascii_digit(c)
}

/// A character allowed in a group ID after its prefix: lowercase
/// alphanumeric, underscore or hyphen.
pub open spec fn is_group_char(c: char) -> bool {
    is_lower_alnum(c) || c == '_' || c == '-'
}

/// A well-formed NetID: 1 to 8 characters, a lowercase letter first,
/// lowercase alphanumerics after it.
pub open spec fn is_netid_seq(s: Seq<char>) -> bool {
    &&& 1 <= s.len() <= 8
    &&& is_lower_letter(s[0])
    &&& forall|i: int| 1 <= i < s.len() ==> is_lower_alnum(#[trigger] s[i])
}

/// What follows a group ID's namespace prefix of length `k`: non-empty,
/// alphanumeric first, group characters after.
pub open spec fn is_group_tail(s: Seq<char>, k: int) -> bool {
    &&& k < s.len()
    &&& is_lower_alnum(s[k])
    &&& forall|i: int| k < i < s.len() ==> is_group_char(#[trigger] s[i])
}

/// A well-formed group ID: the namespace prefix `u_` or `uw_`, then a
/// non-empty tail of group characters starting alphanumeric.
pub open spec fn is_group_seq(s: Seq<char>) -> bool {
    ||| (s.len() >= 2 && s[0] == 'u' && s[1] == '_' && is_group_tail(s, 2))
    ||| (s.len() >= 3 && s[0] == 'u' && s[1] == 'w' && s[2] == '_' && is_group_tail(s, 3))
}

/// A validated personal NetID.
#[derive(Debug)]
pub struct NetId {
    id: String,
}

impl View for NetId {
    type V = Seq<char>;

    closed spec fn view(&self) -> Seq<char> {
        self.id@
    }
}

impl NetId {
    /// Every constructed NetId satisfies the NetID grammar.
    pub open spec fn wf(&self) -> bool {
        is_netid_seq(self@)
    }

    /// The identifier as a string slice.
    pub fn as_str(&self) -> (r: &str)
        ensures
            r@ == self@,
    {
        self.id.as_str()
    }
}

/// A validated group ID.
#[derive(Debug)]
pub struct GroupId {
    id: String,
}

impl View for GroupId {
    type V = Seq<char>;

    closed spec fn view(&self) -> Seq<char> {
        self.id@
    }
}

impl GroupId {
    /// Every constructed GroupId satisfies the group ID grammar.
    pub open spec fn wf(&self) -> bool {
        is_group_seq(self@)
    }

    /// The identifier as a string slice.
    pub fn as_str(&self) -> (r: &str)
        ensures
            r@ == self@,
    {
        self.id.as_str()
    }
}

/// Exec mirror of `is_lower_alnum`.
fn lower_alnum(c: char) -> (r: bool)
    ensures
        r == is_lower_alnum(c),
{
    ('a' <= c && c <= 'z') || ('0' <= c && c <= '9')
}

/// Exec mirror of `is_group_char`.
fn group_char(c: char) -> (r: bool)
    ensures
        r == is_group_char(c),
{
    lower_alnum(c) || c == '_' || c == '-'
}

/// Checks a raw string against the NetID grammar. Succeeds exactly on
/// well-formed NetIDs; pure and deterministic, no side effects.
pub fn validate_netid(s: &str) -> (r: Result<NetId, ValidationError>)
    ensures
        r is Ok <==> is_netid_seq(s@),
        r is Ok ==> r->Ok_0@ == s@,
        r is Err ==> r->Err_0 == ValidationError::InvalidNetId,
{
    let n = s.unicode_len();
    if n < 1 || n > 8 {
        return Err(ValidationError::InvalidNetId);
    }
    let c0 = s.get_char(0);
    if !('a' <= c0 && c0 <= 'z') {
        return Err(ValidationError::InvalidNetId);
    }
    let mut i: usize = 1;
    while i < n
        invariant
            1 <= i <= n,
            n == s@.len(),
            n <= 8,
            is_lower_letter(s@[0]),
            forall|j: int| 1 <= j < i ==> is_lower_alnum(#[trigger] s@[j]),
        decreases n - i,
    {
        let c = s.get_char(i);
        if !lower_alnum(c) {
            return Err(ValidationError::InvalidNetId);
        }
        i += 1;
    }
    Ok(NetId { id: s.to_owned() })
}

/// Checks a raw string against the group ID grammar. Succeeds exactly on
/// well-formed group IDs; pure and deterministic, no side effects.
pub fn validate_group_id(s: &str) -> (r: Result<GroupId, ValidationError>)
    ensures
        r is Ok <==> is_group_seq(s@),
        r is Ok ==> r->Ok_0@ == s@,
        r is Err ==> r->Err_0 == ValidationError::InvalidGroupId,
{
    let n = s.unicode_len();
    if n < 2 {
        return Err(ValidationError::InvalidGroupId);
    }
    if s.get_char(0) != 'u' {
        return Err(ValidationError::InvalidGroupId);
    }
    let c1 = s.get_char(1);
    let k: usize = if c1 == '_' {
        2
    } else if c1 == 'w' && n >= 3 && s.get_char(2) == '_' {
        3
    } else {
        return Err(ValidationError::InvalidGroupId);
    };
    if k >= n {
        return Err(ValidationError::InvalidGroupId);
    }
    if !lower_alnum(s.get_char(k)) {
        return Err(ValidationError::InvalidGroupId);
    }
    let mut i: usize = k + 1;
    while i < n
        invariant
            k + 1 <= i <= n,
            n == s@.len(),
            k < n,
            k == 2 || k == 3,
            is_lower_alnum(s@[k as int]),
            forall|j: int| k < j < i ==> is_group_char(#[trigger] s@[j]),
        decreases n - i,
    {
        let c = s.get_char(i);
        if !group_char(c) {
            return Err(ValidationError::InvalidGroupId);
        }
        i += 1;
    }
    Ok(GroupId { id: s.to_owned() })
}

} // verus!
