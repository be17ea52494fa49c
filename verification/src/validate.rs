//! Checks on the small pieces of text that requests carry: repository paths,
//! return paths, moderation reasons, client message IDs and logins.
use vstd::prelude::*;
use crate::error::{AppError, bad_request};
use crate::crypto::lemma_ascii_utf8_len;
use crate::text::{
    is_white, lemma_lead_count, lemma_trail_count, lemma_utf8_len_lower, white,
    chars_of, is_ascii_alnum, is_ascii_alnum_char, string_of_range, trim, trim_range, utf8_len,
    utf8_len_capped,
};

verus! {

broadcast use vstd::string::group_string_axioms;

/// A character allowed in a GitHub owner or repository name.
pub open spec fn is_slug_char(c: char) -> bool {
    is_ascii_alnum(c) || c == '-' || c == '_' || c == '.'
}

/// A GitHub owner or repository name: 1 to 100 bytes of ASCII letters,
/// digits, `-`, `_` and `.`.
pub open spec fn valid_slug(s: Seq<char>) -> bool {
    s.len() > 0 && utf8_len(s) <= 100 && forall|i: int| 0 <= i < s.len() ==> is_slug_char(s[i])
}

/// A path on this site to return to after sign-in: it starts with a single
/// `/` (so it cannot name another host) and is at most 300 bytes long.
pub open spec fn safe_path(p: Seq<char>) -> bool {
    p.len() > 0 && p[0] == '/' && !(p.len() > 1 && p[1] == '/') && utf8_len(p) <= 300
}

/// The path to return to: `value` when it is a safe path, `/` otherwise.
pub open spec fn return_path(value: Option<Seq<char>>) -> Seq<char> {
    match value {
        Some(p) => if safe_path(p) {
            p
        } else {
            "/"@
        },
        None => "/"@,
    }
}

/// A moderation reason is 1 to 500 characters once trimmed.
pub open spec fn valid_reason(s: Seq<char>) -> bool {
    0 < trim(s).len() <= 500
}

/// A client message ID is 1 to 64 bytes.
pub open spec fn valid_client_message_id(s: Seq<char>) -> bool {
    s.len() > 0 && utf8_len(s) <= 64
}

/// A GitHub login: 1 to 39 bytes of ASCII letters, digits and `-`.
pub open spec fn valid_login(s: Seq<char>) -> bool {
    s.len() > 0 && utf8_len(s) <= 39 && forall|i: int|
        0 <= i < s.len() ==> (is_ascii_alnum(s[i]) || s[i] == '-')
}

/// Whether every character of `v` is allowed in a slug (`slug`) or in a login.
fn all_allowed(v: &Vec<char>, slug: bool) -> (r: bool)
    ensures
        slug ==> (r <==> forall|i: int| 0 <= i < v@.len() ==> is_slug_char(v@[i])),
        !slug ==> (r <==> forall|i: int| 0 <= i < v@.len() ==> (is_ascii_alnum(v@[i]) || v@[i] == '-')),
{
    let mut i: usize = 0;
    while i < v.len()
        invariant
            i <= v.len(),
            slug ==> forall|j: int| 0 <= j < i ==> is_slug_char(v@[j]),
            !slug ==> forall|j: int| 0 <= j < i ==> (is_ascii_alnum(v@[j]) || v@[j] == '-'),
        decreases v.len() - i,
    {
        let c = v[i];
        let ok = is_ascii_alnum_char(c) || c == '-' || (slug && (c == '_' || c == '.'));
        if !ok {
            return false;
        }
        i = i + 1;
    }
    true
}

/// Accepts a GitHub owner or repository name.
pub fn validate_slug(value: &str) -> (r: Result<(), AppError>)
    ensures
        valid_slug(value@) ==> r is Ok,
        !valid_slug(value@) ==> (r matches Err(AppError::BadRequest(m)) && m@
            == "invalid repository path"@),
{
    let v = chars_of(value);
    assert(v@.subrange(0, v.len() as int) =~= v@);
    if v.len() == 0 || utf8_len_capped(&v, 0, v.len(), 100) > 100 || !all_allowed(&v, true) {
        Err(bad_request("invalid repository path"))
    } else {
        Ok(())
    }
}

/// The path to send a user back to after sign-in: the requested one when it
/// is a safe path on this site, `/` otherwise.
pub fn safe_return_to(value: Option<String>) -> (r: String)
    ensures
        r@ == return_path(opt_chars(value)),
{
    match value {
        Some(path) => {
            let v = chars_of(path.as_str());
            assert(v@.subrange(0, v.len() as int) =~= v@);
            if v.len() > 0 && v[0] == '/' && !(v.len() > 1 && v[1] == '/') && utf8_len_capped(
                &v,
                0,
                v.len(),
                300,
            ) <= 300 {
                path
            } else {
                "/".to_string()
            }
        },
        None => "/".to_string(),
    }
}

pub open spec fn opt_chars(o: Option<String>) -> Option<Seq<char>> {
    match o {
        Some(s) => Some(s@),
        None => None,
    }
}

/// A moderation reason, trimmed, when it is 1 to 500 characters long.
pub fn clean_reason(reason: String) -> (r: Result<String, AppError>)
    ensures
        valid_reason(reason@) ==> (r matches Ok(s) && s@ == trim(reason@)),
        !valid_reason(reason@) ==> (r matches Err(AppError::BadRequest(m)) && m@
            == "reason must be 1\u{2013}500 characters"@),
{
    let v = chars_of(reason.as_str());
    let (a, b) = trim_range(&v, 0, v.len());
    assert(v@.subrange(0, v.len() as int) =~= v@);
    if a == b || b - a > 500 {
        Err(bad_request("reason must be 1\u{2013}500 characters"))
    } else {
        Ok(string_of_range(&v, a, b))
    }
}

/// Accepts the client's ID for a new message.
pub fn validate_client_message_id(id: &str) -> (r: Result<(), AppError>)
    ensures
        valid_client_message_id(id@) ==> r is Ok,
        !valid_client_message_id(id@) ==> (r matches Err(AppError::BadRequest(m)) && m@
            == "invalid client message ID"@),
{
    let v = chars_of(id);
    assert(v@.subrange(0, v.len() as int) =~= v@);
    if utf8_len_capped(&v, 0, v.len(), 64) > 64 || v.len() == 0 {
        Err(bad_request("invalid client message ID"))
    } else {
        Ok(())
    }
}

/// The login asked for at development sign-in (`octocat` when none is given),
/// when it is a valid GitHub login.
pub fn validate_login(login: Option<String>) -> (r: Result<String, AppError>)
    ensures
        ({
            let l = match login {
                Some(s) => s@,
                None => "octocat"@,
            };
            &&& valid_login(l) ==> (r matches Ok(s) && s@ == l)
            &&& !valid_login(l) ==> (r matches Err(AppError::BadRequest(m)) && m@
                == "invalid GitHub login"@)
        }),
{
    let login = match login {
        Some(s) => s,
        None => "octocat".to_string(),
    };
    let v = chars_of(login.as_str());
    assert(v@.subrange(0, v.len() as int) =~= v@);
    if v.len() == 0 || utf8_len_capped(&v, 0, v.len(), 39) > 39 || !all_allowed(&v, false) {
        Err(bad_request("invalid GitHub login"))
    } else {
        Ok(login)
    }
}

/// Whatever is asked for, sign-in sends the user back to a path on this site:
/// the path starts with a single `/`, so it can never name another host.
pub proof fn law_return_path_is_local(value: Option<Seq<char>>)
    ensures
        return_path(value).len() > 0,
        return_path(value)[0] == '/',
        !(return_path(value).len() > 1 && return_path(value)[1] == '/'),
{
    reveal_strlit("/");
}

/// Every name of 1 to 100 ASCII letters (either case), digits, `-`, `_` and
/// `.` is a valid owner or repository name.
pub proof fn law_slug_accepts(s: Seq<char>)
    requires
        0 < s.len() <= 100,
        forall|i: int|
            0 <= i < s.len() ==> ('a' <= #[trigger] s[i] <= 'z') || ('A' <= s[i] <= 'Z') || ('0'
                <= s[i] <= '9') || s[i] == '-' || s[i] == '_' || s[i] == '.',
    ensures
        valid_slug(s),
{
    lemma_ascii_utf8_len(s);
}

/// A name that is empty, longer than 100 bytes, or holds any other character
/// is refused.
pub proof fn law_slug_refuses(s: Seq<char>, i: int)
    requires
        s.len() == 0 || s.len() > 100 || (0 <= i < s.len() && !(('a' <= s[i] <= 'z') || ('A'
            <= s[i] <= 'Z') || ('0' <= s[i] <= '9') || s[i] == '-' || s[i] == '_' || s[i] == '.')),
    ensures
        !valid_slug(s),
{
    lemma_utf8_len_lower(s);
}

/// A path that starts with a single `/` and is at most 300 bytes is where
/// sign-in returns, unchanged.
pub proof fn law_safe_path_is_kept(p: Seq<char>)
    requires
        p.len() > 0,
        p[0] == '/',
        !(p.len() > 1 && p[1] == '/'),
        utf8_len(p) <= 300,
    ensures
        return_path(Some(p)) == p,
{
}

/// Any other requested path, or none, returns to `/`: one that does not
/// start with `/`, one that starts with `//`, and one over 300 bytes.
pub proof fn law_unsafe_path_goes_home(value: Option<Seq<char>>)
    requires
        value matches Some(p) ==> (p.len() == 0 || p[0] != '/' || (p.len() > 1 && p[1] == '/')
            || utf8_len(p) > 300),
    ensures
        return_path(value) == "/"@,
{
}

/// Every login of 1 to 39 ASCII letters (either case), digits and `-` is
/// valid; a login that is empty, longer than 39 bytes, or holds any other
/// character is not.
pub proof fn law_login_characters(s: Seq<char>, i: int)
    ensures
        (0 < s.len() <= 39 && forall|j: int|
            0 <= j < s.len() ==> ('a' <= #[trigger] s[j] <= 'z') || ('A' <= s[j] <= 'Z') || ('0'
                <= s[j] <= '9') || s[j] == '-') ==> valid_login(s),
        (s.len() == 0 || s.len() > 39 || (0 <= i < s.len() && !(('a' <= s[i] <= 'z') || ('A'
            <= s[i] <= 'Z') || ('0' <= s[i] <= '9') || s[i] == '-'))) ==> !valid_login(s),
{
    lemma_utf8_len_lower(s);
    if forall|j: int|
        0 <= j < s.len() ==> ('a' <= #[trigger] s[j] <= 'z') || ('A' <= s[j] <= 'Z') || ('0'
            <= s[j] <= '9') || s[j] == '-' {
        lemma_ascii_utf8_len(s);
    }
}

/// A client message ID is accepted exactly when it is 1 to 64 bytes long;
/// for an ASCII ID, that is 1 to 64 characters.
pub proof fn law_client_message_id_length(s: Seq<char>)
    ensures
        s.len() == 0 ==> !valid_client_message_id(s),
        s.len() > 64 ==> !valid_client_message_id(s),
        (0 < s.len() <= 64 && forall|j: int| 0 <= j < s.len() ==> (#[trigger] s[j] as u32) < 0x80)
            ==> valid_client_message_id(s),
{
    lemma_utf8_len_lower(s);
    if forall|j: int| 0 <= j < s.len() ==> (#[trigger] s[j] as u32) < 0x80 {
        lemma_ascii_utf8_len(s);
    }
}

/// A reason of 1 to 500 characters that neither starts nor ends with
/// whitespace is kept exactly as given.
pub proof fn law_plain_reason_is_kept(s: Seq<char>)
    requires
        0 < s.len() <= 500,
        !is_white(s[0]),
        !is_white(s[s.len() - 1]),
    ensures
        valid_reason(s),
        trim(s) == s,
{
    lemma_lead_count(s, white(), 0);
    assert(s.skip(0) =~= s);
    lemma_trail_count(s, white(), 0);
    assert(s.take(s.len() as int) =~= s);
}

} // verus!
