//! Reading the request headers that carry identity (the session cookie and
//! owner API keys) and intent (origin and the mutation marker), and writing
//! the session cookie.
use vstd::prelude::*;
use crate::error::AppError;
use crate::text::{
    is_white, lemma_lead_count, lemma_trail_count, white,
    chars_of, decimal, eq_ignore_ascii_case, first_index, index_of, lemma_lead_count_bounds,
    not_char, range_eq, range_eq_ignore_ascii_case, range_starts_with, str_eq,
    string_of_range, trim, trim_range, utf8_len, utf8_len_capped, decimal_string,
};

verus! {

broadcast use vstd::string::group_string_axioms;

/// How long a session lasts without activity, in seconds (30 days).
pub const SESSION_SECONDS: i64 = 2592000;

/// How long a sign-in attempt may take, from the redirect to GitHub to the
/// callback, in seconds (10 minutes).
pub const OAUTH_STATE_SECONDS: i64 = 600;

/// When a session used at `now` expires: `SESSION_SECONDS` later.
pub fn session_expiry(now: i64) -> (r: i64)
    requires
        now <= i64::MAX - SESSION_SECONDS,
    ensures
        r == now + SESSION_SECONDS,
{
    now + SESSION_SECONDS
}

/// When a sign-in attempt started at `now` expires: `OAUTH_STATE_SECONDS` later.
pub fn oauth_state_expiry(now: i64) -> (r: i64)
    requires
        now <= i64::MAX - OAUTH_STATE_SECONDS,
    ensures
        r == now + OAUTH_STATE_SECONDS,
{
    now + OAUTH_STATE_SECONDS
}

/// The value of the cookie `name` in the `Cookie` header `h`: the first
/// `;`-separated part that, once trimmed, reads `name=value`.
pub open spec fn cookie_in(h: Seq<char>, name: Seq<char>) -> Option<Seq<char>>
    decreases h.len(),
{
    let i = first_index(h, ';');
    let part = trim(h.take(i as int));
    let e = first_index(part, '=');
    if e < part.len() && part.take(e as int) == name {
        Some(part.skip(e + 1 as int))
    } else if i >= h.len() {
        None
    } else {
        proof {
            lemma_lead_count_bounds(h, not_char(';'));
        }
        cookie_in(h.skip(i + 1 as int), name)
    }
}

/// The owner API key in the `Authorization` header `h`: the text after the
/// first space, when the word before it is `bearer` in any case and the key
/// starts with `kk_` and is 46 bytes long.
pub open spec fn bearer_in(h: Seq<char>) -> Option<Seq<char>> {
    let i = first_index(h, ' ');
    let token = h.skip(i + 1 as int);
    if i < h.len() && eq_ignore_ascii_case(h.take(i as int), "bearer"@) && "kk_"@.is_prefix_of(
        token,
    ) && utf8_len(token) == 46 {
        Some(token)
    } else {
        None
    }
}

/// The value of the cookie `name` in a `Cookie` header.
pub fn cookie(header: Option<&str>, name: &str) -> (r: Option<String>)
    ensures
        header is None ==> r is None,
        header matches Some(h) ==> match cookie_in(h@, name@) {
            Some(v) => r matches Some(s) && s@ == v,
            None => r is None,
        },
{
    let h = match header {
        Some(h) => h,
        None => return None,
    };
    let v = chars_of(h);
    let w = chars_of(name);
    let n = v.len();
    let mut pos: usize = 0;
    assert(v@.subrange(0, n as int) =~= h@);
    loop
        invariant
            pos <= n == v.len(),
            header == Some(h),
            v@ == h@,
            w@ == name@,
            cookie_in(h@, name@) == cookie_in(v@.subrange(pos as int, n as int), name@),
        decreases n - pos,
    {
        let ghost s = v@.subrange(pos as int, n as int);
        let i = index_of(&v, pos, n, ';');
        let (a, b) = trim_range(&v, pos, i);
        let e = index_of(&v, a, b, '=');
        proof {
            assert(s.take(i - pos) =~= v@.subrange(pos as int, i as int));
            let part = trim(s.take(i - pos));
            assert(part == v@.subrange(a as int, b as int));
            assert(part.take(e - a) =~= v@.subrange(a as int, e as int));
            if e < b {
                assert(part.skip(e - a + 1) =~= v@.subrange(e + 1, b as int));
            }
            if i < n {
                assert(s.skip(i - pos + 1) =~= v@.subrange(i + 1, n as int));
            }
        }
        if e < b && range_eq(&v, a, e, &w) {
            return Some(string_of_range(&v, e + 1, b));
        }
        if i >= n {
            return None;
        }
        pos = i + 1;
    }
}

/// The owner API key of an `Authorization` header.
pub fn bearer_token(header: Option<&str>) -> (r: Result<String, AppError>)
    ensures
        header is None ==> r matches Err(AppError::Unauthorized),
        header matches Some(h) ==> match bearer_in(h@) {
            Some(t) => r matches Ok(s) && s@ == t,
            None => r matches Err(AppError::Unauthorized),
        },
{
    let h = match header {
        Some(h) => h,
        None => return Err(AppError::Unauthorized),
    };
    let v = chars_of(h);
    let n = v.len();
    let i = index_of(&v, 0, n, ' ');
    assert(v@.subrange(0, n as int) =~= h@);
    if i >= n {
        return Err(AppError::Unauthorized);
    }
    let scheme = chars_of("bearer");
    let prefix = chars_of("kk_");
    proof {
        assert(h@.take(i as int) =~= v@.subrange(0, i as int));
        assert(h@.skip(i + 1) =~= v@.subrange(i + 1, n as int));
    }
    if !range_eq_ignore_ascii_case(&v, 0, i, &scheme) || !range_starts_with(&v, i + 1, n, &prefix)
        || utf8_len_capped(&v, i + 1, n, 46) != 46 {
        return Err(AppError::Unauthorized);
    }
    Ok(string_of_range(&v, i + 1, n))
}

/// Accepts a request whose `Origin` header is exactly the site's own origin.
pub fn require_origin(origin: Option<&str>, base_url: &str) -> (r: Result<(), AppError>)
    ensures
        (origin matches Some(o) && o@ == base_url@) ==> r is Ok,
        !(origin matches Some(o) && o@ == base_url@) ==> r matches Err(AppError::Forbidden),
{
    match origin {
        Some(o) => if str_eq(o, base_url) {
            Ok(())
        } else {
            Err(AppError::Forbidden)
        },
        None => Err(AppError::Forbidden),
    }
}

/// Accepts a state-changing request: it comes from the site's own origin
/// and carries the `x-knock-knock: 1` marker, which a cross-site form cannot set.
pub fn require_mutation(origin: Option<&str>, marker: Option<&str>, base_url: &str) -> (r: Result<
    (),
    AppError,
>)
    ensures
        ((origin matches Some(o) && o@ == base_url@) && (marker matches Some(m) && m@ == "1"@))
            ==> r is Ok,
        !((origin matches Some(o) && o@ == base_url@) && (marker matches Some(m) && m@ == "1"@))
            ==> r matches Err(AppError::Forbidden),
{
    require_origin(origin, base_url)?;
    match marker {
        Some(m) => if str_eq(m, "1") {
            Ok(())
        } else {
            Err(AppError::Forbidden)
        },
        None => Err(AppError::Forbidden),
    }
}

/// The `; Secure` attribute when the site is served over HTTPS.
pub open spec fn secure_attribute(base_url: Seq<char>) -> Seq<char> {
    if "https://"@.is_prefix_of(base_url) {
        "; Secure"@
    } else {
        ""@
    }
}

/// The `Set-Cookie` value that starts a session with `token`.
pub open spec fn session_cookie_text(token: Seq<char>, base_url: Seq<char>) -> Seq<char> {
    "kk_session="@ + token + "; Path=/; HttpOnly; SameSite=Lax; Max-Age="@ + decimal(
        SESSION_SECONDS as nat,
    ) + secure_attribute(base_url)
}

/// The `Set-Cookie` value that starts a session with `token`; it is marked
/// `Secure` when the site runs over HTTPS.
pub fn session_cookie(token: &str, base_url: &str) -> (r: String)
    ensures
        r@ == session_cookie_text(token@, base_url@),
{
    let base = chars_of(base_url);
    let https = chars_of("https://");
    let secure = range_starts_with(&base, 0, base.len(), &https);
    assert(base@.subrange(0, base.len() as int) =~= base_url@);
    let mut out = "kk_session=".to_string();
    out.append(token);
    out.append("; Path=/; HttpOnly; SameSite=Lax; Max-Age=");
    let age = decimal_string(SESSION_SECONDS as u64);
    out.append(age.as_str());
    if secure {
        out.append("; Secure");
    } else {
        proof {
            reveal_strlit("");
            assert(out@ + ""@ =~= out@);
        }
    }
    out
}

/// The `Set-Cookie` value that ends a session.
pub fn cleared_session_cookie() -> (r: String)
    ensures
        r@ == "kk_session=; Path=/; HttpOnly; SameSite=Lax; Max-Age=0"@,
{
    "kk_session=; Path=/; HttpOnly; SameSite=Lax; Max-Age=0".to_string()
}

/// A key taken from an `Authorization` header is exactly the text after
/// `Bearer ` (any case), starts with `kk_` and is 46 bytes long.
pub proof fn law_bearer_key_shape(h: Seq<char>)
    ensures
        bearer_in(h) matches Some(t) ==> {
            &&& h.len() == t.len() + 7
            &&& h[6] == ' '
            &&& h.skip(7) == t
            &&& eq_ignore_ascii_case(h.take(6), "bearer"@)
            &&& t.take(3) == "kk_"@
            &&& utf8_len(t) == 46
        },
{
    reveal_strlit("bearer");
    reveal_strlit("kk_");
    lemma_lead_count_bounds(h, not_char(' '));
    if let Some(t) = bearer_in(h) {
        assert(t.take(3) =~= "kk_"@);
    }
}

/// A `Cookie` header that is just `name=value` gives `value` for `name`,
/// when the name holds neither `;` nor `=` and does not start with
/// whitespace, and the value holds no `;` and does not end with whitespace.
pub proof fn law_single_cookie(name: Seq<char>, value: Seq<char>)
    requires
        name.len() > 0,
        !is_white(name[0]),
        forall|i: int| 0 <= i < name.len() ==> #[trigger] name[i] != ';' && name[i] != '=',
        forall|i: int| 0 <= i < value.len() ==> #[trigger] value[i] != ';',
        value.len() > 0 ==> !is_white(value[value.len() - 1]),
    ensures
        cookie_in(name + "="@ + value, name) == Some(value),
{
    reveal_strlit("=");
    let h = name + "="@ + value;
    let n = name.len() as int;
    assert(h[n] == '=');
    assert forall|j: int| 0 <= j < h.len() implies not_char(';')(h[j]) by {
        if j < n {
            assert(h[j] == name[j]);
        } else if j > n {
            assert(h[j] == value[j - n - 1]);
        }
    }
    lemma_lead_count(h, not_char(';'), h.len() as int);
    assert(h.take(h.len() as int) =~= h);
    assert(h[0] == name[0]);
    lemma_lead_count(h, white(), 0);
    assert(h.skip(0) =~= h);
    if value.len() > 0 {
        assert(h[h.len() - 1] == value[value.len() - 1]);
    }
    lemma_trail_count(h, white(), 0);
    assert(trim(h) =~= h);
    assert forall|j: int| 0 <= j < n implies not_char('=')(h[j]) by {
        assert(h[j] == name[j]);
    }
    lemma_lead_count(h, not_char('='), n);
    assert(h.take(n) =~= name);
    assert(h.skip(n + 1) =~= value);
}

/// A part before the first `;` of a `Cookie` header that does not read
/// `name=...` once trimmed is passed over: the value of `name` is looked for
/// in the rest.
pub proof fn law_cookie_skips_other_parts(part: Seq<char>, rest: Seq<char>, name: Seq<char>)
    requires
        forall|i: int| 0 <= i < part.len() ==> #[trigger] part[i] != ';',
        !(name + "="@).is_prefix_of(trim(part)),
    ensures
        cookie_in(part + ";"@ + rest, name) == cookie_in(rest, name),
{
    reveal_strlit("=");
    reveal_strlit(";");
    let h = part + ";"@ + rest;
    let a = part.len() as int;
    assert(h[a] == ';');
    assert forall|j: int| 0 <= j < a implies not_char(';')(h[j]) by {
        assert(h[j] == part[j]);
    }
    lemma_lead_count(h, not_char(';'), a);
    assert(h.take(a) =~= part);
    assert(h.skip(a + 1) =~= rest);
    let p = trim(part);
    let e = first_index(p, '=');
    lemma_lead_count_bounds(p, not_char('='));
    if e < p.len() && p.take(e as int) == name {
        assert(p.take(e + 1 as int) =~= name + "="@);
        assert((name + "="@).is_prefix_of(p));
    }
}

} // verus!
