//! The caller identity read from trusted upstream headers: a numeric
//! user id, a trimmed non-empty username, and an optional granted right.
//! Missing or unusable identity headers reject with 401.

use vstd::prelude::*;
use crate::error::ApiError;
use crate::strutil::{spec_trim, trim_ascii, spec_parse_u64_str, parse_u64_str, chars_to_string};

verus! {

/// The authenticated caller, as the upstream proxy reports it.
#[derive(Debug)]
pub struct AuthContext {
    pub user_id: u64,
    pub username: String,
    pub granted_right: Option<String>,
}

/// Builds the caller identity from the three auth headers: accepted
/// exactly when the id header holds a number and the user header trims
/// to something non-empty; rejected with 401 `auth_headers_missing`
/// otherwise. The username is kept trimmed; the granted right passes
/// through unchanged.
pub fn auth_from_headers(
    user_id_header: Option<&str>,
    user_header: Option<&str>,
    granted_header: Option<&str>,
) -> (r: Result<AuthContext, ApiError>)
    ensures
        (r is Ok) == ((match user_id_header {
            Some(s) => spec_parse_u64_str(s@) is Some,
            None => false,
        }) && (match user_header {
            Some(u) => spec_trim(u@).len() > 0,
            None => false,
        })),
        match r {
            Ok(a) => {
                &&& (match user_id_header {
                    Some(s) => Some(a.user_id) == spec_parse_u64_str(s@),
                    None => false,
                })
                &&& (match user_header {
                    Some(u) => a.username@ == spec_trim(u@),
                    None => false,
                })
                &&& (match granted_header {
                    Some(g) => a.granted_right matches Some(gr) && gr@ == g@,
                    None => a.granted_right is None,
                })
            },
            Err(e) => e.status == 401 && e.code@ == "auth_headers_missing"@,
        },
{
    let id = match user_id_header {
        Some(s) => parse_u64_str(s),
        None => None,
    };
    let name = match user_header {
        Some(u) => {
            let t = trim_ascii(u);
            if t.len() > 0 {
                Some(chars_to_string(&t))
            } else {
                None
            }
        },
        None => None,
    };
    match (id, name) {
        (Some(user_id), Some(username)) => Ok(AuthContext {
            user_id,
            username,
            granted_right: match granted_header {
                Some(g) => Some(String::from_str(g)),
                None => None,
            },
        }),
        _ => Err(ApiError::new(
            401,
            "auth_headers_missing",
            String::from_str("auth headers missing"),
        )),
    }
}

} // verus!
