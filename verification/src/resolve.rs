//! Finding out which repository a room path names and who the signed-in
//! user is to it, and the identities of development mode.
use vstd::prelude::*;
use vstd::utf8::encode_utf8;
use crate::access::{
    AuthUser, GithubOwner, GithubPermissions, GithubRepository, Relationship, may_manage, opt_view,
    pill_for, relationship_for,
};
use crate::crypto::{dev_github_id, dev_repository_id, id_of_digest, sha256_digest};
use crate::error::{AppError, not_found};
use crate::links::{github_avatar, github_repository_endpoint, github_repository_page};
use crate::text::{eq_ignore_ascii_case, str_eq_ignore_ascii_case};
use crate::validate::{valid_login, valid_slug, validate_login, validate_slug};

verus! {

broadcast use vstd::string::group_string_axioms;

/// A GitHub account as the sign-in reports it.
#[derive(Debug, Clone)]
pub struct GithubUser {
    pub id: i64,
    pub login: String,
    pub avatar_url: String,
}

/// Where the description of a repository comes from.
#[derive(Debug, Clone)]
pub enum RepositorySource {
    /// Ask the GitHub API at `endpoint` with the user's `token`.
    Fetch { endpoint: String, token: String },
    /// Development mode: a made-up public repository.
    Local(GithubRepository),
}

/// The made-up repository that development mode uses for `owner/repo`: a
/// public repository with issues, owned by the person `owner`, on which the
/// signed-in user is admin exactly when their login is `owner` up to case.
pub open spec fn local_repository(owner: Seq<char>, repo: Seq<char>, user: AuthUser, r: GithubRepository) -> bool {
    &&& r.id == id_of_digest(sha256_digest(encode_utf8(owner + "/"@ + repo)))
    &&& r.name@ == repo
    &&& !r.private
    &&& r.html_url@ == "https://github.com/"@ + owner + "/"@ + repo
    &&& opt_view(r.description) == Some("Local development repository"@)
    &&& r.has_issues
    &&& r.owner.login@ == owner
    &&& r.owner.kind@ == "User"@
    &&& r.permissions.admin == eq_ignore_ascii_case(owner, user.login@)
    &&& !r.permissions.maintain
    &&& !r.permissions.push
    &&& !r.permissions.triage
    &&& r.permissions._pull
}

/// The repository development mode makes up for `owner/repo`.
pub fn local_repository_for(owner: &str, repo: &str, user: &AuthUser) -> (r: GithubRepository)
    ensures
        local_repository(owner@, repo@, *user, r),
{
    GithubRepository {
        id: dev_repository_id(owner, repo),
        name: repo.to_string(),
        private: false,
        html_url: github_repository_page(owner, repo),
        description: Some("Local development repository".to_string()),
        has_issues: true,
        owner: GithubOwner { login: owner.to_string(), kind: "User".to_string() },
        permissions: GithubPermissions {
            admin: str_eq_ignore_ascii_case(owner, user.login.as_str()),
            maintain: false,
            push: false,
            triage: false,
            _pull: true,
        },
    }
}

/// Where to learn about `owner/repo` for `user`: both names must be valid;
/// then the GitHub API when the user has a token, the made-up repository in
/// development mode, and otherwise the user must sign in with GitHub.
pub fn repository_source(user: &AuthUser, owner: &str, repo: &str, dev_auth: bool) -> (r: Result<
    RepositorySource,
    AppError,
>)
    ensures
        !valid_slug(owner@) || !valid_slug(repo@) ==> (r matches Err(AppError::BadRequest(m))
            && m@ == "invalid repository path"@),
        valid_slug(owner@) && valid_slug(repo@) ==> match user.token {
            Some(t) => r matches Ok(RepositorySource::Fetch { endpoint, token }) && token@ == t@
                && endpoint@ == "https://api.github.com/repos/"@ + owner@ + "/"@ + repo@,
            None => if dev_auth {
                r matches Ok(RepositorySource::Local(g)) && local_repository(
                    owner@,
                    repo@,
                    *user,
                    g,
                )
            } else {
                r matches Err(AppError::Unauthorized)
            },
        },
{
    validate_slug(owner)?;
    validate_slug(repo)?;
    match &user.token {
        Some(token) => Ok(
            RepositorySource::Fetch {
                endpoint: github_repository_endpoint(owner, repo),
                token: token.clone(),
            },
        ),
        None => if dev_auth {
            Ok(RepositorySource::Local(local_repository_for(owner, repo, user)))
        } else {
            Err(AppError::Unauthorized)
        },
    }
}

/// The relationship of `user` to `repo`, which must be public.
pub fn public_relationship(user: &AuthUser, repo: &GithubRepository) -> (r: Result<
    Relationship,
    AppError,
>)
    ensures
        repo.private ==> (r matches Err(AppError::NotFound(m)) && m@
            == "private repositories are not supported"@),
        !repo.private ==> (r matches Ok(rel) && opt_view(rel.pill) == pill_for(*user, *repo)
            && rel.can_manage == may_manage(*user, *repo)),
{
    if repo.private {
        return Err(not_found("private repositories are not supported"));
    }
    Ok(relationship_for(user, repo))
}

/// Accepts a moderation or management action only from someone who may
/// manage the room.
pub fn require_manager(relationship: &Relationship) -> (r: Result<(), AppError>)
    ensures
        relationship.can_manage ==> r is Ok,
        !relationship.can_manage ==> r matches Err(AppError::Forbidden),
{
    if relationship.can_manage {
        Ok(())
    } else {
        Err(AppError::Forbidden)
    }
}

/// Accepts muting `target_id` by `actor_id`: nobody may mute themselves.
pub fn check_mute_target(actor_id: i64, target_id: i64) -> (r: Result<(), AppError>)
    ensures
        actor_id == target_id ==> (r matches Err(AppError::BadRequest(m)) && m@
            == "you cannot mute yourself"@),
        actor_id != target_id ==> r is Ok,
{
    if target_id == actor_id {
        Err(crate::error::bad_request("you cannot mute yourself"))
    } else {
        Ok(())
    }
}

/// Accepts a post from someone who is neither blocked on the platform nor
/// muted in the room.
pub fn ensure_can_post(blocked: bool, muted: bool) -> (r: Result<(), AppError>)
    ensures
        (blocked || muted) ==> r matches Err(AppError::Forbidden),
        !(blocked || muted) ==> r is Ok,
{
    if blocked || muted {
        Err(AppError::Forbidden)
    } else {
        Ok(())
    }
}

/// The identity development sign-in gives the requested login (`octocat`
/// when none is given): its account number comes from the SHA-256 digest of
/// the login and its avatar is the login's GitHub avatar.
pub fn dev_identity(login: Option<String>) -> (r: Result<GithubUser, AppError>)
    ensures
        ({
            let l = match login {
                Some(s) => s@,
                None => "octocat"@,
            };
            &&& valid_login(l) ==> (r matches Ok(u) && u.login@ == l && u.id == id_of_digest(
                sha256_digest(encode_utf8(l)),
            ) && u.avatar_url@ == "https://github.com/"@ + l + ".png?size=96"@)
            &&& !valid_login(l) ==> (r matches Err(AppError::BadRequest(m)) && m@
                == "invalid GitHub login"@)
        }),
{
    let login = validate_login(login)?;
    let id = dev_github_id(login.as_str());
    let avatar_url = github_avatar(login.as_str());
    Ok(GithubUser { id, login, avatar_url })
}

} // verus!
