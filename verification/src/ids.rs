//! Validation of client names and session secrets.
//!
//! Both are spliced into channel names and notification payloads that travel
//! through the database's text protocol, so they are restricted to ASCII
//! alphanumeric characters; the separator characters of the codec can then
//! never occur inside them.

use vstd::prelude::*;

verus! {

/// A character allowed in a client name or a session secret.
pub open spec fn is_ascii_alphanumeric_char(c: char) -> bool {
    ('0' <= c && c <= '9') || ('a' <= c && c <= 'z') || ('A' <= c && c <= 'Z')
}

/// Every character of `s` is ASCII alphanumeric.
pub open spec fn all_alphanumeric(s: Seq<char>) -> bool {
    forall|i: int| 0 <= i < s.len() ==> is_ascii_alphanumeric_char(s[i])
}

/// Check that every character of `s` is ASCII alphanumeric.
fn str_all_alphanumeric(s: &str) -> (r: bool)
    ensures
        r == all_alphanumeric(s@),
{
    let len = s.unicode_len();
    let mut i: usize = 0;
    while i < len
        invariant
            i <= len,
            len == s@.len(),
            forall|j: int| 0 <= j < i ==> is_ascii_alphanumeric_char(s@[j]),
        decreases len - i,
    {
        let c = s.get_char(i);
        if !(('0' <= c && c <= '9') || ('a' <= c && c <= 'z') || ('A' <= c && c <= 'Z')) {
            return false;
        }
        i += 1;
    }
    true
}

/// An empty supplied secret stands for no secret.
pub open spec fn spec_normalize_secret(secret: Option<String>) -> Option<String> {
    match secret {
        Some(s) => if s@.len() == 0 {
            None
        } else {
            Some(s)
        },
        None => None,
    }
}

/// Drop an empty supplied secret: the session it names is the secretless one.
pub fn normalize_secret(secret: Option<String>) -> (r: Option<String>)
    ensures
        r == spec_normalize_secret(secret),
{
    match secret {
        Some(s) => {
            if s.as_str().is_empty() {
                None
            } else {
                Some(s)
            }
        },
        None => None,
    }
}

/// Check if client name and secret are acceptable.
pub fn name_and_secret_acceptable(client: &str, secret: Option<&str>) -> (r: bool)
    ensures
        r == (all_alphanumeric(client@) && match secret {
            Some(s) => all_alphanumeric(s@),
            None => true,
        }),
{
    if !str_all_alphanumeric(client) {
        return false;
    }
    match secret {
        Some(s) => str_all_alphanumeric(s),
        None => true,
    }
}

} // verus!
