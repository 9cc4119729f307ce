//! Whitelist validators for every external string that reaches the
//! provisioning logic: slugs, group names, permission names, directory
//! names, and SQL identifiers. Each validator is a pure character-class
//! check; nothing is escaped, invalid input is only ever rejected.

use vstd::prelude::*;
use crate::error::ApiError;

verus! {

/// The whitelist a string is held against.
#[derive(Clone, Copy, Debug, PartialEq, Eq, Structural)]
pub enum Pattern {
    Slug,
    Group,
    Permission,
    Dir,
}

/// Whether a string matches a whitelist.
pub open spec fn spec_matches(s: Seq<char>, ty: Pattern) -> bool {
    match ty {
        Pattern::Slug => spec_valid_slug(s),
        Pattern::Group => spec_valid_group(s),
        Pattern::Permission => spec_valid_group(s),
        Pattern::Dir => spec_valid_ident(s),
    }
}

/// Characters allowed in a wiki slug: `[0-9a-z-]`.
pub open spec fn is_slug_char(c: char) -> bool {
    ('0' <= c && c <= '9') || ('a' <= c && c <= 'z') || c == '-'
}

/// A valid slug matches `^[0-9a-z-]{3,64}$`.
pub open spec fn spec_valid_slug(s: Seq<char>) -> bool {
    3 <= s.len() && s.len() <= 64 && forall|i: int| 0 <= i < s.len() ==> is_slug_char(#[trigger] s[i])
}

/// Decides `^[0-9a-z-]{3,64}$`.
pub fn is_valid_slug(s: &str) -> (r: bool)
    ensures
        r == spec_valid_slug(s@),
{
    let len = s.unicode_len();
    if len < 3 || len > 64 {
        return false;
    }
    let mut i: usize = 0;
    while i < len
        invariant
            i <= len,
            len == s@.len(),
            3 <= len && len <= 64,
            forall|j: int| 0 <= j < i ==> is_slug_char(#[trigger] s@[j]),
        decreases len - i,
    {
        let c = s.get_char(i);
        if !(('0' <= c && c <= '9') || ('a' <= c && c <= 'z') || c == '-') {
            return false;
        }
        i = i + 1;
    }
    true
}

/// Characters allowed in group and permission names: `[0-9a-zA-Z-*. ]`.
pub open spec fn is_group_char(c: char) -> bool {
    ('0' <= c && c <= '9') || ('a' <= c && c <= 'z') || ('A' <= c && c <= 'Z')
        || c == '-' || c == '*' || c == '.' || c == ' '
}

/// A valid group or permission name matches `^[0-9a-zA-Z-\*\. ]{1,64}$`.
pub open spec fn spec_valid_group(s: Seq<char>) -> bool {
    1 <= s.len() && s.len() <= 64 && forall|i: int| 0 <= i < s.len() ==> is_group_char(#[trigger] s[i])
}

/// Decides `^[0-9a-zA-Z-\*\. ]{1,64}$`, shared by group and permission names.
pub fn is_valid_group(s: &str) -> (r: bool)
    ensures
        r == spec_valid_group(s@),
{
    let len = s.unicode_len();
    if len < 1 || len > 64 {
        return false;
    }
    let mut i: usize = 0;
    while i < len
        invariant
            i <= len,
            len == s@.len(),
            1 <= len && len <= 64,
            forall|j: int| 0 <= j < i ==> is_group_char(#[trigger] s@[j]),
        decreases len - i,
    {
        let c = s.get_char(i);
        if !(('0' <= c && c <= '9') || ('a' <= c && c <= 'z') || ('A' <= c && c <= 'Z')
            || c == '-' || c == '*' || c == '.' || c == ' ')
        {
            return false;
        }
        i = i + 1;
    }
    true
}

/// Characters allowed in directory names and SQL identifiers:
/// `[0-9a-zA-Z_-]`.
pub open spec fn is_ident_char(c: char) -> bool {
    ('0' <= c && c <= '9') || ('a' <= c && c <= 'z') || ('A' <= c && c <= 'Z')
        || c == '_' || c == '-'
}

/// A valid directory name or SQL identifier matches `^[0-9a-zA-Z_-]{1,64}$`.
pub open spec fn spec_valid_ident(s: Seq<char>) -> bool {
    1 <= s.len() && s.len() <= 64 && forall|i: int| 0 <= i < s.len() ==> is_ident_char(#[trigger] s[i])
}

/// Decides `^[0-9a-zA-Z-_]{1,64}$`, used for directory names and for any
/// identifier interpolated into SQL (which is then wrapped in backticks,
/// never escaped).
pub fn is_valid_ident(s: &str) -> (r: bool)
    ensures
        r == spec_valid_ident(s@),
{
    let len = s.unicode_len();
    if len < 1 || len > 64 {
        return false;
    }
    let mut i: usize = 0;
    while i < len
        invariant
            i <= len,
            len == s@.len(),
            1 <= len && len <= 64,
            forall|j: int| 0 <= j < i ==> is_ident_char(#[trigger] s@[j]),
        decreases len - i,
    {
        let c = s.get_char(i);
        if !(('0' <= c && c <= '9') || ('a' <= c && c <= 'z') || ('A' <= c && c <= 'Z')
            || c == '_' || c == '-')
        {
            return false;
        }
        i = i + 1;
    }
    true
}

/// Holds a string against a whitelist: accepted exactly when it matches,
/// rejected with a single 400 `param_invalid` error carrying the
/// offending value.
pub fn validate(s: &str, ty: Pattern) -> (r: Result<(), ApiError>)
    ensures
        (r is Ok) == spec_matches(s@, ty),
        match r {
            Ok(()) => true,
            Err(e) => e.status == 400 && e.code@ == "param_invalid"@,
        },
{
    let ok = match ty {
        Pattern::Slug => is_valid_slug(s),
        Pattern::Group => is_valid_group(s),
        Pattern::Permission => is_valid_group(s),
        Pattern::Dir => is_valid_ident(s),
    };
    if ok {
        Ok(())
    } else {
        let msg = String::from_str("parameter ").concat(s).concat(" is invalid");
        Err(ApiError::new(400, "param_invalid", msg))
    }
}

/// Every valid slug is also a valid SQL identifier, so a slug may be used
/// as a per-wiki database and user name.
pub proof fn lemma_slug_is_ident(s: Seq<char>)
    requires
        spec_valid_slug(s),
    ensures
        spec_valid_ident(s),
{
    assert forall|i: int| 0 <= i < s.len() implies is_ident_char(#[trigger] s[i]) by {
        assert(is_slug_char(s[i]));
    }
}

} // verus!
