//! What a message may hold: some text, at most 8,000 characters, and links
//! only to absolute HTTP(S) addresses of at most 2,048 bytes.
use pulldown_cmark::{Event, Parser, Tag};
use vstd::prelude::*;
use crate::error::{AppError, bad_request};
use crate::links::{opt_string, parsed_scheme, url_scheme};
use crate::text::{
    chars_of, decimal, decimal_string, find_white, lead_count, lemma_lead_count_bounds, not_white, range_starts_with, skip_white, str_eq, trim, trim_range, utf8_len, utf8_len_capped,
    white,
};

verus! {

broadcast use vstd::string::group_string_axioms;

/// The longest message, in characters.
pub const MAX_MESSAGE_CHARS: usize = 8000;

/// The longest link address, in bytes.
pub const MAX_URL_BYTES: usize = 2048;

/// One entry per event that `pulldown_cmark`'s parser yields for `text`: the
/// destination of each link or image that starts there, and nothing for
/// every other event.
pub uninterp spec fn markdown_destinations(text: Seq<char>) -> Seq<Option<Seq<char>>>;

pub open spec fn opt_strings(v: Seq<Option<String>>) -> Seq<Option<Seq<char>>> {
    v.map_values(|o: Option<String>| opt_string(o))
}

/// `Parser::new(text)`, with each event mapped to the destination of the link
/// or image it starts, if any. Trusted: the sequence of destinations is named.
#[verifier::external_body]
fn link_destinations(text: &str) -> (r: Vec<Option<String>>)
    ensures
        opt_strings(r@) == markdown_destinations(text@),
{
    Parser::new(text).map(|event| match event {
        Event::Start(Tag::Link { dest_url, .. }) => Some(dest_url.to_string()),
        Event::Start(Tag::Image { dest_url, .. }) => Some(dest_url.to_string()),
        _ => None,
    }).collect()
}

pub open spec fn url_too_long() -> Seq<char> {
    "URL is longer than 2,048 characters"@
}

/// What is wrong with a link destination, if anything.
pub open spec fn destination_problem(d: Seq<char>) -> Option<Seq<char>> {
    if utf8_len(d) > MAX_URL_BYTES {
        Some(url_too_long())
    } else {
        scheme_problem(url_scheme(d))
    }
}

/// What is wrong with a link whose scheme, as `url` parses it, is `scheme`
/// (none when it did not parse as an absolute URL), if anything.
pub open spec fn scheme_problem(scheme: Option<Seq<char>>) -> Option<Seq<char>> {
    match scheme {
        None => Some("links must be absolute HTTP(S) URLs"@),
        Some(s) => if s == "http"@ || s == "https"@ {
            None
        } else {
            Some("links must use HTTP or HTTPS"@)
        },
    }
}

/// The problem of the first faulty link destination in `ds`, if any.
pub open spec fn links_problem(ds: Seq<Option<Seq<char>>>) -> Option<Seq<char>>
    decreases ds.len(),
{
    if ds.len() == 0 {
        None
    } else {
        let first = match ds[0] {
            Some(d) => destination_problem(d),
            None => None,
        };
        if first is Some {
            first
        } else {
            links_problem(ds.drop_first())
        }
    }
}

/// Whether a word is a bare web address.
pub open spec fn is_web_address(w: Seq<char>) -> bool {
    "http://"@.is_prefix_of(w) || "https://"@.is_prefix_of(w)
}

/// Whether some whitespace-separated word of `s` is a bare web address
/// longer than 2,048 bytes.
pub open spec fn has_long_address(s: Seq<char>) -> bool
    decreases s.len(),
{
    let a = lead_count(s, white());
    if a >= s.len() {
        false
    } else {
        let t = s.skip(a as int);
        let k = lead_count(t, not_white());
        let w = t.take(k as int);
        if is_web_address(w) && utf8_len(w) > MAX_URL_BYTES {
            true
        } else {
            proof {
                lemma_lead_count_bounds(s, white());
                lemma_lead_count_bounds(t, not_white());
            }
            has_long_address(t.skip(k as int))
        }
    }
}

/// What is wrong with a message, if anything: it is blank, longer than
/// 8,000 characters, links to a faulty destination, or holds a bare web
/// address over 2,048 bytes, checked in that order.
pub open spec fn message_problem(md: Seq<char>) -> Option<Seq<char>> {
    if trim(md).len() == 0 {
        Some("message cannot be empty"@)
    } else if md.len() > MAX_MESSAGE_CHARS {
        Some("message is longer than "@ + decimal(MAX_MESSAGE_CHARS as nat) + " characters"@)
    } else {
        match links_problem(markdown_destinations(md)) {
            Some(p) => Some(p),
            None => if has_long_address(md) {
                Some(url_too_long())
            } else {
                None
            },
        }
    }
}

fn check_destination(d: &str) -> (r: Result<(), AppError>)
    ensures
        match destination_problem(d@) {
            Some(p) => r matches Err(AppError::BadRequest(m)) && m@ == p,
            None => r is Ok,
        },
{
    let v = chars_of(d);
    assert(v@.subrange(0, v.len() as int) =~= d@);
    if utf8_len_capped(&v, 0, v.len(), MAX_URL_BYTES) > MAX_URL_BYTES {
        return Err(bad_request("URL is longer than 2,048 characters"));
    }
    check_scheme(parsed_scheme(d))
}

/// Accepts a link whose scheme, as `url` parsed it, is `scheme`: only
/// `http` and `https` are allowed, and a link that did not parse as an
/// absolute URL is refused.
pub fn check_scheme(scheme: Option<String>) -> (r: Result<(), AppError>)
    ensures
        match scheme_problem(opt_string(scheme)) {
            Some(p) => r matches Err(AppError::BadRequest(m)) && m@ == p,
            None => r is Ok,
        },
{
    match scheme {
        None => Err(bad_request("links must be absolute HTTP(S) URLs")),
        Some(s) => if str_eq(s.as_str(), "http") || str_eq(s.as_str(), "https") {
            Ok(())
        } else {
            Err(bad_request("links must use HTTP or HTTPS"))
        },
    }
}

/// Accepts the link destinations of a message, one entry per parser event
/// as `link_destinations` lists them, or names the problem of the first
/// faulty one.
pub fn check_destinations(events: &Vec<Option<String>>) -> (r: Result<(), AppError>)
    ensures
        match links_problem(opt_strings(events@)) {
            Some(p) => r matches Err(AppError::BadRequest(m)) && m@ == p,
            None => r is Ok,
        },
{
    let ghost ds = opt_strings(events@);
    let mut i: usize = 0;
    assert(ds.skip(0) =~= ds);
    while i < events.len()
        invariant
            i <= events@.len(),
            opt_strings(events@) == ds,
            links_problem(ds) == links_problem(ds.skip(i as int)),
        decreases events@.len() - i,
    {
        proof {
            let rest = ds.skip(i as int);
            assert(rest[0] == ds[i as int]);
            assert(rest.drop_first() =~= ds.skip(i + 1));
            assert(ds[i as int] == opt_string(events@[i as int]));
        }
        match &events[i] {
            Some(d) => {
                let checked = check_destination(d.as_str());
                proof {
                    assert(ds.skip(i as int)[0] == Some(d@));
                    assert(destination_problem(d@) is Some ==> links_problem(ds.skip(i as int))
                        == destination_problem(d@));
                }
                if checked.is_err() {
                    return checked;
                }
            },
            None => {},
        }
        i = i + 1;
    }
    assert(ds.skip(i as int) =~= Seq::<Option<Seq<char>>>::empty());
    Ok(())
}

fn check_addresses(v: &Vec<char>) -> (r: bool)
    ensures
        r == has_long_address(v@),
{
    let n = v.len();
    let http = chars_of("http://");
    let https = chars_of("https://");
    let mut pos: usize = 0;
    assert(v@.subrange(0, n as int) =~= v@);
    loop
        invariant
            pos <= n == v.len(),
            http@ == "http://"@,
            https@ == "https://"@,
            has_long_address(v@) == has_long_address(v@.subrange(pos as int, n as int)),
        decreases n - pos,
    {
        let ghost s = v@.subrange(pos as int, n as int);
        let a = skip_white(v, pos, n);
        if a >= n {
            return false;
        }
        let e = find_white(v, a, n);
        proof {
            let t = s.skip(a - pos);
            assert(t =~= v@.subrange(a as int, n as int));
            assert(t.take(e - a) =~= v@.subrange(a as int, e as int));
            assert(t.skip(e - a) =~= v@.subrange(e as int, n as int));
            lemma_lead_count_bounds(t, not_white());
            lemma_lead_count_bounds(s, white());
            assert(t[0] == s[a - pos]);
            assert(!crate::text::is_white(t[0]));
        }
        let web = range_starts_with(v, a, e, &http) || range_starts_with(v, a, e, &https);
        if web && utf8_len_capped(v, a, e, MAX_URL_BYTES) > MAX_URL_BYTES {
            return true;
        }
        pos = e;
    }
}

/// Accepts the Markdown of a new or edited message, or says what is wrong with it.
pub fn validate_message(markdown: &str) -> (r: Result<(), AppError>)
    ensures
        match message_problem(markdown@) {
            Some(p) => r matches Err(AppError::BadRequest(m)) && m@ == p,
            None => r is Ok,
        },
{
    let v = chars_of(markdown);
    let (a, b) = trim_range(&v, 0, v.len());
    assert(v@.subrange(0, v.len() as int) =~= markdown@);
    if a == b {
        return Err(bad_request("message cannot be empty"));
    }
    if v.len() > MAX_MESSAGE_CHARS {
        let mut m = "message is longer than ".to_string();
        let n = decimal_string(MAX_MESSAGE_CHARS as u64);
        m.append(n.as_str());
        m.append(" characters");
        return Err(AppError::BadRequest(m));
    }
    let events = link_destinations(markdown);
    let links = check_destinations(&events);
    if links.is_err() {
        return links;
    }
    if check_addresses(&v) {
        return Err(bad_request("URL is longer than 2,048 characters"));
    }
    Ok(())
}

/// A link to an absolute `http` or `https` address of at most 2,048 bytes
/// is accepted.
pub proof fn law_web_links_are_accepted(d: Seq<char>)
    requires
        utf8_len(d) <= MAX_URL_BYTES,
        url_scheme(d) == Some("http"@) || url_scheme(d) == Some("https"@),
    ensures
        destination_problem(d) is None,
{
}

/// A link longer than 2,048 bytes is refused for its length; one that does
/// not parse as an absolute URL, or whose scheme is neither `http` nor
/// `https`, is refused for that.
pub proof fn law_other_links_are_refused(d: Seq<char>)
    ensures
        utf8_len(d) > MAX_URL_BYTES ==> destination_problem(d) == Some(
            "URL is longer than 2,048 characters"@,
        ),
        utf8_len(d) <= MAX_URL_BYTES && url_scheme(d) is None ==> destination_problem(d) == Some(
            "links must be absolute HTTP(S) URLs"@,
        ),
        (utf8_len(d) <= MAX_URL_BYTES && url_scheme(d) is Some && url_scheme(d) != Some("http"@)
            && url_scheme(d) != Some("https"@)) ==> destination_problem(d) == Some(
            "links must use HTTP or HTTPS"@,
        ),
{
}

/// A message whose links all go to absolute `http` or `https` addresses of
/// at most 2,048 bytes has no faulty link.
pub proof fn law_good_links_pass(ds: Seq<Option<Seq<char>>>)
    requires
        forall|i: int|
            0 <= i < ds.len() && #[trigger] ds[i] is Some ==> utf8_len(ds[i]->Some_0)
                <= MAX_URL_BYTES && (url_scheme(ds[i]->Some_0) == Some("http"@) || url_scheme(
                ds[i]->Some_0,
            ) == Some("https"@)),
    ensures
        links_problem(ds) is None,
    decreases ds.len(),
{
    if ds.len() > 0 {
        let r = ds.drop_first();
        assert forall|i: int| 0 <= i < r.len() && #[trigger] r[i] is Some implies utf8_len(
            r[i]->Some_0,
        ) <= MAX_URL_BYTES && (url_scheme(r[i]->Some_0) == Some("http"@) || url_scheme(
            r[i]->Some_0,
        ) == Some("https"@)) by {
            assert(r[i] == ds[i + 1]);
        }
        law_good_links_pass(r);
        assert(ds[0] is Some ==> utf8_len(ds[0]->Some_0) <= MAX_URL_BYTES);
    }
}

/// The first faulty link decides: when `ds[k]` is the first link with a
/// problem, that problem is reported.
pub proof fn law_first_faulty_link_is_reported(ds: Seq<Option<Seq<char>>>, k: int)
    requires
        0 <= k < ds.len(),
        ds[k] is Some,
        destination_problem(ds[k]->Some_0) is Some,
        forall|i: int| 0 <= i < k && #[trigger] ds[i] is Some ==> destination_problem(ds[i]->Some_0) is None,
    ensures
        links_problem(ds) == destination_problem(ds[k]->Some_0),
    decreases k,
{
    if k > 0 {
        let r = ds.drop_first();
        assert forall|i: int| 0 <= i < k - 1 && #[trigger] r[i] is Some implies destination_problem(
            r[i]->Some_0,
        ) is None by {
            assert(r[i] == ds[i + 1]);
        }
        assert(r[k - 1] == ds[k]);
        law_first_faulty_link_is_reported(r, k - 1);
        assert(ds[0] is Some ==> destination_problem(ds[0]->Some_0) is None);
    }
}

/// A blank message is refused as empty, and a message of more than 8,000
/// characters as too long; a non-blank message of at most 8,000
/// characters whose links are all good and with no bare web address over
/// 2,048 bytes is accepted.
pub proof fn law_message_limits(md: Seq<char>)
    ensures
        trim(md).len() == 0 ==> message_problem(md) == Some("message cannot be empty"@),
        trim(md).len() > 0 && md.len() > 8000 ==> message_problem(md) == Some(
            "message is longer than 8000 characters"@,
        ),
        trim(md).len() > 0 && md.len() <= 8000 && links_problem(markdown_destinations(md)) is None
            && !has_long_address(md) ==> message_problem(md) is None,
{
    reveal_strlit("message is longer than ");
    reveal_strlit(" characters");
    reveal_strlit("message is longer than 8000 characters");
    assert(decimal(8000) =~= seq!['8', '0', '0', '0']) by {
        reveal_with_fuel(decimal, 5);
    }
    assert("message is longer than "@ + decimal(8000) + " characters"@
        =~= "message is longer than 8000 characters"@);
}

} // verus!
