//! Who a signed-in user is to a repository, as GitHub reports it, and what
//! that lets them do in the repository's room.
use vstd::prelude::*;
use crate::text::{eq_ignore_ascii_case, str_eq, str_eq_ignore_ascii_case};

verus! {

broadcast use vstd::string::group_string_axioms;

/// A signed-in user.
#[derive(Debug, Clone)]
pub struct AuthUser {
    /// The Knock Knock account number.
    pub id: i64,
    pub github_id: i64,
    pub login: String,
    pub avatar_url: String,
    /// The user's GitHub OAuth token, when one is stored.
    pub token: Option<String>,
}

/// The owner of a GitHub repository.
#[derive(Debug, Clone)]
pub struct GithubOwner {
    pub login: String,
    /// `User` or `Organization`.
    pub kind: String,
}

/// The permissions GitHub reports for the signed-in user on a repository.
#[derive(Debug, Clone, Default)]
pub struct GithubPermissions {
    pub admin: bool,
    pub maintain: bool,
    pub push: bool,
    pub triage: bool,
    pub _pull: bool,
}

/// A repository as GitHub describes it.
#[derive(Debug, Clone)]
pub struct GithubRepository {
    pub id: i64,
    pub name: String,
    pub private: bool,
    pub html_url: String,
    pub description: Option<String>,
    pub has_issues: bool,
    pub owner: GithubOwner,
    pub permissions: GithubPermissions,
}

/// A repository as Knock Knock stores it.
#[derive(Debug, Clone)]
pub struct Repository {
    pub id: i64,
    pub owner: String,
    pub name: String,
    pub html_url: String,
    pub description: Option<String>,
    pub has_issues: bool,
}

/// The public description of a repository.
#[derive(Debug, Clone)]
pub struct RepositoryView {
    pub owner: String,
    pub name: String,
    pub html_url: String,
    pub description: Option<String>,
}

/// The pill shown beside a user's messages and whether they may manage the room.
#[derive(Debug, Clone)]
pub struct Relationship {
    pub pill: Option<String>,
    pub can_manage: bool,
}

pub open spec fn opt_view(o: Option<String>) -> Option<Seq<char>> {
    match o {
        Some(s) => Some(s@),
        None => None,
    }
}

/// Whether `user` owns `repo` as a person (not through an organization).
pub open spec fn is_personal_owner(user: AuthUser, repo: GithubRepository) -> bool {
    repo.owner.kind@ == "User"@ && eq_ignore_ascii_case(repo.owner.login@, user.login@)
}

/// The pill that `user` gets on `repo`: `owner` for the owner of a personal
/// repository, `maintainer` for admin, maintain or write access,
/// `collaborator` for triage access, and none otherwise. Read access alone is
/// no affiliation.
pub open spec fn pill_for(user: AuthUser, repo: GithubRepository) -> Option<Seq<char>> {
    if is_personal_owner(user, repo) {
        Some("owner"@)
    } else if repo.permissions.admin || repo.permissions.maintain || repo.permissions.push {
        Some("maintainer"@)
    } else if repo.permissions.triage {
        Some("collaborator"@)
    } else {
        None
    }
}

/// Whether `user` may activate, moderate and deactivate the room of `repo`:
/// the owner of a personal repository, or a user with admin or maintain access.
pub open spec fn may_manage(user: AuthUser, repo: GithubRepository) -> bool {
    is_personal_owner(user, repo) || repo.permissions.admin || repo.permissions.maintain
}

/// The relationship of `user` to `repo`.
pub fn relationship_for(user: &AuthUser, repo: &GithubRepository) -> (r: Relationship)
    ensures
        opt_view(r.pill) == pill_for(*user, *repo),
        r.can_manage == may_manage(*user, *repo),
{
    let personal = str_eq(repo.owner.kind.as_str(), "User") && str_eq_ignore_ascii_case(
        repo.owner.login.as_str(),
        user.login.as_str(),
    );
    if personal {
        Relationship { pill: Some("owner".to_string()), can_manage: true }
    } else if repo.permissions.admin || repo.permissions.maintain {
        Relationship { pill: Some("maintainer".to_string()), can_manage: true }
    } else if repo.permissions.push {
        Relationship { pill: Some("maintainer".to_string()), can_manage: false }
    } else if repo.permissions.triage {
        Relationship { pill: Some("collaborator".to_string()), can_manage: false }
    } else {
        Relationship { pill: None, can_manage: false }
    }
}

/// The public description of a stored repository.
pub fn repository_view(repo: &Repository) -> (v: RepositoryView)
    ensures
        v.owner@ == repo.owner@,
        v.name@ == repo.name@,
        v.html_url@ == repo.html_url@,
        opt_view(v.description) == opt_view(repo.description),
{
    RepositoryView {
        owner: repo.owner.clone(),
        name: repo.name.clone(),
        html_url: repo.html_url.clone(),
        description: repo.description.clone(),
    }
}

/// The owner of a personal repository is shown as `owner` and may manage
/// its room, whatever GitHub reports of their permissions; the login is
/// compared without regard to ASCII case.
pub proof fn law_personal_owner_is_owner(user: AuthUser, repo: GithubRepository)
    requires
        repo.owner.kind@ == "User"@,
        eq_ignore_ascii_case(repo.owner.login@, user.login@),
    ensures
        pill_for(user, repo) == Some("owner"@),
        may_manage(user, repo),
{
}

/// A login matches itself: the owner of a personal repository signed in
/// under that very login is its owner.
pub proof fn law_same_login_is_owner(user: AuthUser, repo: GithubRepository)
    requires
        repo.owner.kind@ == "User"@,
        repo.owner.login@ == user.login@,
    ensures
        pill_for(user, repo) == Some("owner"@),
        may_manage(user, repo),
{
}

/// Admin or maintain access makes a user, other than the personal owner, a
/// `maintainer` who may manage the room.
pub proof fn law_admin_or_maintain_manages(user: AuthUser, repo: GithubRepository)
    requires
        repo.owner.kind@ != "User"@ || !eq_ignore_ascii_case(repo.owner.login@, user.login@),
        repo.permissions.admin || repo.permissions.maintain,
    ensures
        pill_for(user, repo) == Some("maintainer"@),
        may_manage(user, repo),
{
}

/// Write access without admin or maintain makes a user a `maintainer`,
/// whatever GitHub says of triage, but gives no right to manage the room.
pub proof fn law_write_access_is_maintainer(user: AuthUser, repo: GithubRepository)
    requires
        repo.owner.kind@ != "User"@ || !eq_ignore_ascii_case(repo.owner.login@, user.login@),
        !repo.permissions.admin,
        !repo.permissions.maintain,
        repo.permissions.push,
    ensures
        pill_for(user, repo) == Some("maintainer"@),
        !may_manage(user, repo),
{
}

/// Triage access without write, maintain or admin makes a user a
/// `collaborator`, who may not manage the room.
pub proof fn law_triage_is_collaborator(user: AuthUser, repo: GithubRepository)
    requires
        repo.owner.kind@ != "User"@ || !eq_ignore_ascii_case(repo.owner.login@, user.login@),
        !repo.permissions.admin,
        !repo.permissions.maintain,
        !repo.permissions.push,
        repo.permissions.triage,
    ensures
        pill_for(user, repo) == Some("collaborator"@),
        !may_manage(user, repo),
{
}

/// Read access alone is no affiliation: a user who does not own the
/// repository personally and has none of admin, maintain, write or triage
/// access gets no pill and may not manage the room, whatever else GitHub
/// reports.
pub proof fn law_read_access_is_no_affiliation(user: AuthUser, repo: GithubRepository)
    requires
        repo.owner.kind@ != "User"@ || !eq_ignore_ascii_case(repo.owner.login@, user.login@),
        !repo.permissions.admin,
        !repo.permissions.maintain,
        !repo.permissions.push,
        !repo.permissions.triage,
    ensures
        pill_for(user, repo) is None,
        !may_manage(user, repo),
{
}

/// Only a room's managers carry a pill that speaks for the project: whoever
/// may manage the room is shown as `owner` or `maintainer`.
pub proof fn law_managers_carry_a_pill(user: AuthUser, repo: GithubRepository)
    requires
        may_manage(user, repo),
    ensures
        pill_for(user, repo) == Some("owner"@) || pill_for(user, repo) == Some("maintainer"@),
{
}

} // verus!
