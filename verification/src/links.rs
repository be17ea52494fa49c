//! The addresses the service builds: room links, GitHub sign-in and API
//! addresses, and the prefilled issue that asks for a room.
use url::Url;
use vstd::prelude::*;
use crate::access::Repository;
use crate::error::{AppError, not_found};

verus! {

broadcast use vstd::string::group_string_axioms;

/// The text `url` makes of `base` with the query pairs `pairs` appended in
/// order, or nothing when `base` does not parse as a URL.
pub uninterp spec fn url_with_pairs(base: Seq<char>, pairs: Seq<(Seq<char>, Seq<char>)>) -> Option<
    Seq<char>,
>;

/// The scheme of `text` as `url` parses it, or nothing when it does not
/// parse as an absolute URL.
pub uninterp spec fn url_scheme(text: Seq<char>) -> Option<Seq<char>>;

pub open spec fn pair_views(pairs: Seq<(String, String)>) -> Seq<(Seq<char>, Seq<char>)> {
    pairs.map_values(|p: (String, String)| (p.0@, p.1@))
}

/// The most characters, base and query pairs together, that are made into
/// a URL. `url` panics once the text it builds passes 4 GiB; parsing and
/// form-encoding write a bounded number of bytes for each character (at
/// most 12 when a character is percent-encoded, fewer under Punycode), so
/// below this bound the text stays far smaller.
pub const MAX_URL_INPUT_CHARS: usize = 16777216;

/// The number of characters of the query pairs `pairs`, counting an `=` and
/// a separator for each.
pub open spec fn pairs_len(pairs: Seq<(Seq<char>, Seq<char>)>) -> nat
    decreases pairs.len(),
{
    if pairs.len() == 0 {
        0
    } else {
        pairs_len(pairs.drop_last()) + pairs.last().0.len() + pairs.last().1.len() + 2
    }
}

/// Whether `base` and `pairs` are short enough to be made into a URL.
pub open spec fn fits_url(base: Seq<char>, pairs: Seq<(Seq<char>, Seq<char>)>) -> bool {
    base.len() + pairs_len(pairs) <= MAX_URL_INPUT_CHARS
}

proof fn lemma_pairs_len_prefix(p: Seq<(Seq<char>, Seq<char>)>, j: int)
    requires
        0 <= j <= p.len(),
    ensures
        pairs_len(p.take(j)) <= pairs_len(p),
    decreases p.len() - j,
{
    if j < p.len() {
        assert(p.take(j + 1).drop_last() =~= p.take(j));
        lemma_pairs_len_prefix(p, j + 1);
    } else {
        assert(p.take(j) =~= p);
    }
}

/// Whether `base` and `pairs` are short enough to be made into a URL.
fn fits_url_text(base: &str, pairs: &Vec<(String, String)>) -> (r: bool)
    ensures
        r == fits_url(base@, pair_views(pairs@)),
{
    let ghost pv = pair_views(pairs@);
    let mut total = base.unicode_len();
    if total > MAX_URL_INPUT_CHARS {
        proof {
            lemma_pairs_len_prefix(pv, 0);
        }
        return false;
    }
    let mut i: usize = 0;
    assert(pv.take(0) =~= Seq::<(Seq<char>, Seq<char>)>::empty());
    while i < pairs.len()
        invariant
            i <= pairs.len(),
            pv == pair_views(pairs@),
            total == base@.len() + pairs_len(pv.take(i as int)),
            total <= MAX_URL_INPUT_CHARS,
        decreases pairs.len() - i,
    {
        let a = pairs[i].0.as_str().unicode_len();
        let b = pairs[i].1.as_str().unicode_len();
        proof {
            assert(pv.take(i + 1).drop_last() =~= pv.take(i as int));
            assert(pv[i as int] == (pairs@[i as int].0@, pairs@[i as int].1@));
        }
        if a > MAX_URL_INPUT_CHARS - total || b > MAX_URL_INPUT_CHARS - total - a || 2
            > MAX_URL_INPUT_CHARS - total - a - b {
            proof {
                lemma_pairs_len_prefix(pv, i + 1);
            }
            return false;
        }
        total = total + a + b + 2;
        i = i + 1;
    }
    assert(pv.take(i as int) =~= pv);
    true
}

/// `Url::parse` of `base`, then `query_pairs_mut().extend_pairs(pairs)`, then
/// the URL's text. Trusted: the resulting text is named. `requires` keeps the
/// text far below the 4 GiB at which `url` panics.
#[verifier::external_body]
fn with_query(base: &str, pairs: &Vec<(String, String)>) -> (r: Option<String>)
    requires
        fits_url(base@, pair_views(pairs@)),
    ensures
        match r {
            Some(s) => url_with_pairs(base@, pair_views(pairs@)) == Some(s@),
            None => url_with_pairs(base@, pair_views(pairs@)) is None,
        },
{
    let mut url = Url::parse(base).ok()?;
    url.query_pairs_mut().extend_pairs(pairs.iter());
    Some(url.into())
}

/// `Url::parse` of `text`, then `scheme()`. Trusted: the scheme is named.
#[verifier::external_body]
pub(crate) fn parsed_scheme(text: &str) -> (r: Option<String>)
    ensures
        match r {
            Some(s) => url_scheme(text@) == Some(s@),
            None => url_scheme(text@) is None,
        },
{
    Url::parse(text).ok().map(|u| u.scheme().to_string())
}

pub open spec fn opt_string(o: Option<String>) -> Option<Seq<char>> {
    match o {
        Some(s) => Some(s@),
        None => None,
    }
}

/// The public address of the room of `owner/repo` on the site at `base_url`.
pub fn room_url(base_url: &str, owner: &str, repo: &str) -> (r: String)
    ensures
        r@ == base_url@ + "/"@ + owner@ + "/"@ + repo@,
{
    let mut out = base_url.to_string();
    out.append("/");
    out.append(owner);
    out.append("/");
    out.append(repo);
    out
}

/// Where GitHub sends a user back after sign-in.
pub fn callback_url(base_url: &str) -> (r: String)
    ensures
        r@ == base_url@ + "/auth/github/callback"@,
{
    let mut out = base_url.to_string();
    out.append("/auth/github/callback");
    out
}

/// The GitHub API address of `owner/repo`.
pub fn github_repository_endpoint(owner: &str, repo: &str) -> (r: String)
    ensures
        r@ == "https://api.github.com/repos/"@ + owner@ + "/"@ + repo@,
{
    let mut out = "https://api.github.com/repos/".to_string();
    out.append(owner);
    out.append("/");
    out.append(repo);
    out
}

/// The GitHub page of `owner/repo`.
pub fn github_repository_page(owner: &str, repo: &str) -> (r: String)
    ensures
        r@ == "https://github.com/"@ + owner@ + "/"@ + repo@,
{
    let mut out = "https://github.com/".to_string();
    out.append(owner);
    out.append("/");
    out.append(repo);
    out
}

/// The GitHub avatar of `login`, at the size the room shows.
pub fn github_avatar(login: &str) -> (r: String)
    ensures
        r@ == "https://github.com/"@ + login@ + ".png?size=96"@,
{
    let mut out = "https://github.com/".to_string();
    out.append(login);
    out.append(".png?size=96");
    out
}

/// The title of the issue that asks maintainers to activate a room.
pub open spec fn request_title() -> Seq<char> {
    "Activate this repository on Knock Knock"@
}

/// The body of the issue that asks maintainers to activate a room.
pub open spec fn request_body() -> Seq<char> {
    "Would a repository maintainer activate the Knock Knock room? It gives GitHub users a lightweight, 14-day public conversation space for this project."@
}

/// A link to a new GitHub issue, prefilled to ask the maintainers of `repo`
/// to activate its room; none when the repository has no issues.
pub fn issue_url(repo: &Repository) -> (r: Option<String>)
    ensures
        !repo.has_issues ==> r is None,
        repo.has_issues && !fits_url(
            repo.html_url@ + "/issues/new"@,
            seq![("title"@, request_title()), ("body"@, request_body())],
        ) ==> r is None,
        repo.has_issues && fits_url(
            repo.html_url@ + "/issues/new"@,
            seq![("title"@, request_title()), ("body"@, request_body())],
        ) ==> opt_string(r) == url_with_pairs(
            repo.html_url@ + "/issues/new"@,
            seq![("title"@, request_title()), ("body"@, request_body())],
        ),
{
    if !repo.has_issues {
        return None;
    }
    let mut base = repo.html_url.clone();
    base.append("/issues/new");
    let pairs = vec![
        ("title".to_string(), "Activate this repository on Knock Knock".to_string()),
        (
            "body".to_string(),
            "Would a repository maintainer activate the Knock Knock room? It gives GitHub users a lightweight, 14-day public conversation space for this project.".to_string(),
        ),
    ];
    assert(pair_views(pairs@) =~= seq![("title"@, request_title()), ("body"@, request_body())]);
    if !fits_url_text(base.as_str(), &pairs) {
        return None;
    }
    with_query(base.as_str(), &pairs)
}

/// The GitHub sign-in address for the OAuth app `client_id`, returning to the
/// site at `base_url`, with the anti-forgery `state_token` and the PKCE
/// `challenge`.
pub fn authorize_url(client_id: &str, base_url: &str, state_token: &str, challenge: &str) -> (r:
    Option<String>)
    ensures
        ({
            let base = "https://github.com/login/oauth/authorize"@;
            let pairs = seq![
                ("client_id"@, client_id@),
                ("redirect_uri"@, base_url@ + "/auth/github/callback"@),
                ("state"@, state_token@),
                ("code_challenge"@, challenge@),
                ("code_challenge_method"@, "S256"@),
            ];
            &&& fits_url(base, pairs) ==> opt_string(r) == url_with_pairs(base, pairs)
            &&& !fits_url(base, pairs) ==> r is None
        }),
{
    let pairs = vec![
        ("client_id".to_string(), client_id.to_string()),
        ("redirect_uri".to_string(), callback_url(base_url)),
        ("state".to_string(), state_token.to_string()),
        ("code_challenge".to_string(), challenge.to_string()),
        ("code_challenge_method".to_string(), "S256".to_string()),
    ];
    assert(pair_views(pairs@) =~= seq![
        ("client_id"@, client_id@),
        ("redirect_uri"@, base_url@ + "/auth/github/callback"@),
        ("state"@, state_token@),
        ("code_challenge"@, challenge@),
        ("code_challenge_method"@, "S256"@),
    ]);
    if !fits_url_text("https://github.com/login/oauth/authorize", &pairs) {
        return None;
    }
    with_query("https://github.com/login/oauth/authorize", &pairs)
}

/// The failure that a GitHub API answer with status `status` (written as
/// `status_text`, such as `403 Forbidden`) stands for; none for a success.
pub fn github_status_error(status: u16, status_text: &str) -> (r: Option<AppError>)
    ensures
        status == 404 ==> (r matches Some(AppError::NotFound(m)) && m@
            == "public GitHub repository not found"@),
        status == 401 ==> r matches Some(AppError::Unauthorized),
        status != 404 && status != 401 && !(200 <= status <= 299) ==> (r matches Some(
            AppError::Conflict(m),
        ) && m@ == "GitHub returned "@ + status_text@),
        200 <= status <= 299 ==> r is None,
{
    if status == 404 {
        Some(not_found("public GitHub repository not found"))
    } else if status == 401 {
        Some(AppError::Unauthorized)
    } else if !(200 <= status && status <= 299) {
        let mut m = "GitHub returned ".to_string();
        m.append(status_text);
        Some(AppError::Conflict(m))
    } else {
        None
    }
}

} // verus!
