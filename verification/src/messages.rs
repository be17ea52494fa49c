//! The fourteen-day human window, room activation, and how stored messages
//! are shown and paged.
use vstd::prelude::*;
use crate::access::{AuthUser, opt_view};
use crate::error::{AppError, conflict};
use crate::time::{MAX_TIMESTAMP, MIN_TIMESTAMP, rfc3339_utc, timestamp};

verus! {

broadcast use vstd::string::group_string_axioms;

/// How long a message stays in the room, in seconds (14 days).
pub const VISIBLE_SECONDS: i64 = 1209600;

/// How long a message stays in the room, in days.
pub const RETENTION_DAYS: i64 = 14;

/// Messages returned by one history request at most.
pub const MAX_PAGE: i64 = 100;

/// A user as other people see them.
#[derive(Debug, Clone)]
pub struct PublicUser {
    /// The GitHub account number.
    pub id: i64,
    pub login: String,
    pub avatar_url: String,
}

impl PublicUser {
    /// How `user` appears to others.
    pub fn from_user(user: &AuthUser) -> (p: PublicUser)
        ensures
            p.id == user.github_id,
            p.login@ == user.login@,
            p.avatar_url@ == user.avatar_url@,
    {
        PublicUser { id: user.github_id, login: user.login.clone(), avatar_url: user.avatar_url.clone() }
    }
}

/// A stored message with its author, as the database returns it.
#[derive(Debug, Clone)]
pub struct MessageRow {
    pub id: i64,
    pub markdown: String,
    pub affiliation: Option<String>,
    /// `visible`, `removed` or `hidden`.
    pub state: String,
    pub created_at: i64,
    pub edited_at: Option<i64>,
    pub github_id: i64,
    pub login: String,
    pub avatar_url: String,
}

/// A message as the room shows it.
#[derive(Debug, Clone)]
pub struct MessageView {
    pub id: i64,
    pub author: PublicUser,
    /// The text, present only while the message is visible; a removed or
    /// hidden message is a tombstone without it.
    pub markdown: Option<String>,
    pub affiliation: Option<String>,
    pub state: String,
    pub created_at: String,
    pub edited_at: Option<String>,
}

/// Whether `t` is a time the API can show.
pub open spec fn showable(t: i64) -> bool {
    MIN_TIMESTAMP <= t <= MAX_TIMESTAMP
}

/// A stored message as the room shows it: the text only while its state is
/// `visible`, and its times in RFC 3339.
pub fn message_from_row(row: MessageRow) -> (v: MessageView)
    requires
        showable(row.created_at),
        row.edited_at matches Some(t) ==> showable(t),
    ensures
        v.id == row.id,
        v.author.id == row.github_id,
        v.author.login@ == row.login@,
        v.author.avatar_url@ == row.avatar_url@,
        row.state@ == "visible"@ ==> (v.markdown matches Some(m) && m@ == row.markdown@),
        row.state@ != "visible"@ ==> v.markdown is None,
        opt_view(v.affiliation) == opt_view(row.affiliation),
        v.state@ == row.state@,
        rfc3339_utc(row.created_at) == Some(v.created_at@),
        row.edited_at is None ==> v.edited_at is None,
        row.edited_at matches Some(t) ==> (v.edited_at matches Some(s) && rfc3339_utc(t) == Some(
            s@,
        )),
{
    let visible = crate::text::str_eq(row.state.as_str(), "visible");
    let edited_at = match row.edited_at {
        Some(t) => Some(timestamp(t)),
        None => None,
    };
    MessageView {
        id: row.id,
        author: PublicUser { id: row.github_id, login: row.login, avatar_url: row.avatar_url },
        markdown: if visible {
            Some(row.markdown)
        } else {
            None
        },
        affiliation: row.affiliation,
        state: row.state,
        created_at: timestamp(row.created_at),
        edited_at,
    }
}

/// Whether a message posted at `created_at` is still in the fourteen-day
/// window at `now`.
pub open spec fn within_fourteen_days(created_at: i64, now: i64) -> bool {
    created_at > now - VISIBLE_SECONDS
}

/// The earliest posting time, exclusive, of a message still visible at `now`.
pub fn visibility_cutoff(now: i64) -> (r: i64)
    requires
        now >= i64::MIN + VISIBLE_SECONDS,
    ensures
        r == now - VISIBLE_SECONDS,
{
    now - VISIBLE_SECONDS
}

/// Whether a room is open and since when its messages are shown.
#[derive(Debug, Clone, Copy)]
pub struct RoomState {
    pub active: bool,
    /// The activation time of the current period; messages posted before it
    /// are never shown again.
    pub visible_since: Option<i64>,
}

/// A room that was never activated.
pub open spec fn unclaimed_room() -> RoomState {
    RoomState { active: false, visible_since: None }
}

/// A room after an activation request at `now`: an inactive room opens with
/// an empty timeline that starts at `now`; an active room is left as it is.
pub open spec fn activated(room: RoomState, now: i64) -> RoomState {
    if room.active {
        room
    } else {
        RoomState { active: true, visible_since: Some(now) }
    }
}

/// A room after a deactivation request: it closes, which takes every
/// message out of view and blocks posting.
pub open spec fn deactivated(room: RoomState) -> RoomState {
    RoomState { active: false, visible_since: room.visible_since }
}

/// Whether a message posted at `created_at` is shown in `room` at `now`.
pub open spec fn shown(room: RoomState, created_at: i64, now: i64) -> bool {
    &&& room.active
    &&& within_fourteen_days(created_at, now)
    &&& room.visible_since matches Some(s) && created_at >= s
}

impl RoomState {
    /// The room after an activation request at `now`.
    pub fn activate(self, now: i64) -> (r: RoomState)
        ensures
            r == activated(self, now),
    {
        if self.active {
            self
        } else {
            RoomState { active: true, visible_since: Some(now) }
        }
    }

    /// The room after a deactivation request, and whether it was open before.
    pub fn deactivate(self) -> (r: (RoomState, bool))
        ensures
            r.0 == deactivated(self),
            r.1 == self.active,
    {
        (RoomState { active: false, visible_since: self.visible_since }, self.active)
    }

    /// Accepts reading or posting only while the room is open.
    pub fn require_active(&self) -> (r: Result<(), AppError>)
        ensures
            self.active ==> r is Ok,
            !self.active ==> (r matches Err(AppError::Conflict(m)) && m@
                == "this room is not active"@),
    {
        if self.active {
            Ok(())
        } else {
            Err(conflict("this room is not active"))
        }
    }

    /// The bounds that a history query uses at `now`: messages posted after
    /// the first and not before the second are listed.
    pub fn listing_bounds(&self, now: i64) -> (r: (i64, i64))
        requires
            now >= i64::MIN + VISIBLE_SECONDS,
        ensures
            r.0 == now - VISIBLE_SECONDS,
            r.1 == match self.visible_since {
                Some(s) => s,
                None => i64::MAX,
            },
    {
        let floor = match self.visible_since {
            Some(s) => s,
            None => i64::MAX,
        };
        (now - VISIBLE_SECONDS, floor)
    }
}

/// Accepts an edit or removal by `user` of a message by `author_id`, posted
/// at `created_at` in a room that is `active` and shows messages since
/// `visible_since`: only the author may change it, and only while it is
/// shown.
pub fn ensure_author_visible(
    user: &AuthUser,
    author_id: i64,
    active: bool,
    visible_since: Option<i64>,
    created_at: i64,
    now: i64,
) -> (r: Result<(), AppError>)
    requires
        now >= i64::MIN + VISIBLE_SECONDS,
    ensures
        user.id != author_id ==> r matches Err(AppError::Forbidden),
        user.id == author_id && shown(RoomState { active, visible_since }, created_at, now)
            ==> r is Ok,
        user.id == author_id && !shown(RoomState { active, visible_since }, created_at, now)
            ==> (r matches Err(AppError::Conflict(m)) && m@
            == "message is outside the public viewing window"@),
{
    if user.id != author_id {
        return Err(AppError::Forbidden);
    }
    let outside = match visible_since {
        Some(since) => created_at < since,
        None => true,
    };
    if !active || created_at <= now - VISIBLE_SECONDS || outside {
        return Err(conflict("message is outside the public viewing window"));
    }
    Ok(())
}

/// The page size of a history request: 100 unless asked otherwise, and
/// always between 1 and 100.
pub fn history_limit(limit: Option<i64>) -> (r: i64)
    ensures
        r == match limit {
            None => MAX_PAGE,
            Some(l) => if l < 1 {
                1
            } else if l > MAX_PAGE {
                MAX_PAGE
            } else {
                l
            },
        },
        1 <= r <= MAX_PAGE,
{
    match limit {
        None => MAX_PAGE,
        Some(l) => if l < 1 {
            1
        } else if l > MAX_PAGE {
            MAX_PAGE
        } else {
            l
        },
    }
}

/// The message ID below which a history request lists (all, when none is given).
pub fn history_before(before: Option<i64>) -> (r: i64)
    ensures
        r == match before {
            Some(b) => b,
            None => i64::MAX,
        },
{
    match before {
        Some(b) => b,
        None => i64::MAX,
    }
}

/// A page of history from `rows`, which the database returned newest first
/// and one longer than a full page when more exist: the first `limit` rows,
/// and the cursor for the next page (the ID of the last row shown) when there
/// are more.
pub fn history_page(rows: Vec<MessageView>, limit: i64) -> (r: (Vec<MessageView>, Option<i64>))
    requires
        1 <= limit <= MAX_PAGE,
    ensures
        rows@.len() > limit ==> r.0@ == rows@.take(limit as int),
        rows@.len() <= limit ==> r.0@ == rows@,
        rows@.len() > limit ==> r.1 == Some(rows@[limit - 1].id),
        rows@.len() <= limit ==> r.1 is None,
{
    let mut items = rows;
    let has_more = items.len() > limit as usize;
    items.truncate(limit as usize);
    let next = if has_more {
        Some(items[items.len() - 1].id)
    } else {
        None
    };
    (items, next)
}

/// A message leaves the room exactly fourteen days after it was posted: it
/// is in the window for any `now` less than 1,209,600 seconds later and out
/// of it from then on.
pub proof fn law_fourteen_day_window(created_at: i64, now: i64)
    ensures
        within_fourteen_days(created_at, now) <==> now - created_at < 1209600,
{
}

/// Deactivation hides every message, and reactivation starts an empty
/// timeline: after a room is deactivated and activated again at `t`, no
/// message posted before `t` is ever shown.
pub proof fn law_reactivation_starts_empty(room: RoomState, created_at: i64, t: i64, now: i64)
    requires
        created_at < t,
    ensures
        !shown(deactivated(room), created_at, now),
        !shown(activated(deactivated(room), t), created_at, now),
{
}

/// An author may edit or remove exactly the messages that the room lists:
/// in an active room, `ensure_author_visible` accepts its author exactly when
/// the history query bounds admit the message.
pub proof fn law_editable_is_listed(room: RoomState, created_at: i64, now: i64)
    requires
        room.active,
        room.visible_since is Some,
        now >= i64::MIN + VISIBLE_SECONDS,
    ensures
        shown(room, created_at, now) <==> (created_at > now - VISIBLE_SECONDS && created_at
            >= room.visible_since->Some_0),
{
}

/// A room that is activated is open and lists from the activation time.
pub proof fn law_activation_opens(room: RoomState, now: i64)
    requires
        !room.active,
    ensures
        activated(room, now).active,
        activated(room, now).visible_since == Some(now),
        shown(activated(room, now), now, now),
{
}

} // verus!
