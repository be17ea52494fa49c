//! The owner polling API accepts one request per key per minute.
use vstd::prelude::*;
use crate::error::AppError;
use crate::links::room_url;
use crate::messages::showable;
use crate::time::{MAX_TIMESTAMP, MIN_TIMESTAMP, rfc3339_utc, timestamp};

verus! {

/// Seconds a key must wait between two polls.
pub const OWNER_API_POLL_SECONDS: i64 = 60;

/// What is stored for an owner API key.
#[derive(Debug, Clone, Copy)]
pub struct ApiKeyRecord {
    /// The account the key belongs to.
    pub user_id: i64,
    /// When the key last polled successfully, in Unix seconds.
    pub last_polled_at: Option<i64>,
}

/// Whether a key that last polled at `last` may poll at `now`.
pub open spec fn may_poll(last: Option<i64>, now: i64) -> bool {
    match last {
        None => true,
        Some(l) => l <= now - OWNER_API_POLL_SECONDS,
    }
}

/// Seconds until a key that last polled at `last` may poll again (at least one).
pub open spec fn wait_after(last: i64, now: i64) -> int {
    let w = OWNER_API_POLL_SECONDS - (now - last);
    if w < 1 {
        1
    } else {
        w
    }
}

/// The outcome of a poll at `now` by the key whose record is `record`
/// (`None` when no key matches).
pub open spec fn poll_outcome(record: Option<ApiKeyRecord>, now: i64) -> Result<ApiKeyRecord, AppError> {
    match record {
        None => Err(AppError::Unauthorized),
        Some(r) => if may_poll(r.last_polled_at, now) {
            Ok(ApiKeyRecord { user_id: r.user_id, last_polled_at: Some(now) })
        } else {
            Err(AppError::PollingTooQuickly(wait_after(r.last_polled_at->0, now) as i64))
        },
    }
}

/// Takes the poll of a key at `now`: an unknown key is refused as
/// unauthorized, a key that polled less than a minute ago is told how many
/// seconds to wait, and any other key gets the record to store, which marks
/// it as having polled at `now`; the caller answers for `record.user_id`.
pub fn claim_api_poll(record: Option<ApiKeyRecord>, now: i64) -> (r: Result<ApiKeyRecord, AppError>)
    requires
        now >= i64::MIN + OWNER_API_POLL_SECONDS,
        (record matches Some(k) && k.last_polled_at matches Some(l) && l > now
            - OWNER_API_POLL_SECONDS) ==> now - record->Some_0.last_polled_at->Some_0 > i64::MIN
            + OWNER_API_POLL_SECONDS,
    ensures
        r == poll_outcome(record, now),
{
    let k = match record {
        None => return Err(AppError::Unauthorized),
        Some(k) => k,
    };
    let due = match k.last_polled_at {
        None => true,
        Some(l) => l <= now - OWNER_API_POLL_SECONDS,
    };
    if due {
        return Ok(ApiKeyRecord { user_id: k.user_id, last_polled_at: Some(now) });
    }
    let l = k.last_polled_at.unwrap();
    let w = OWNER_API_POLL_SECONDS - (now - l);
    Err(AppError::PollingTooQuickly(if w < 1 { 1 } else { w }))
}

/// Accepts the creation of an owner API key only by someone who manages the
/// room of at least one repository.
pub fn require_key_owner(manages_any_room: bool) -> (r: Result<(), AppError>)
    ensures
        manages_any_room ==> r is Ok,
        !manages_any_room ==> r matches Err(AppError::Forbidden),
{
    if manages_any_room {
        Ok(())
    } else {
        Err(AppError::Forbidden)
    }
}

/// A managed room with new messages, as the owner API reports it.
#[derive(Debug, Clone)]
pub struct OwnerRoomUpdate {
    pub owner: String,
    pub repository: String,
    /// The room's public address.
    pub url: String,
    /// Visible messages by other people since the owner last opened the room.
    pub new_message_count: i64,
    /// When the newest of them was posted, in RFC 3339.
    pub latest_message_at: String,
    /// When the owner last opened the room, in RFC 3339.
    pub last_opened_at: String,
}

/// The report on the room of `owner/repository` on the site at `base_url`,
/// from the counts and Unix times that the database gives for it.
pub fn owner_room_update(
    base_url: &str,
    owner: String,
    repository: String,
    new_message_count: i64,
    latest_message_at: i64,
    last_opened_at: i64,
) -> (u: OwnerRoomUpdate)
    requires
        showable(latest_message_at),
        showable(last_opened_at),
    ensures
        u.owner@ == owner@,
        u.repository@ == repository@,
        u.url@ == base_url@ + "/"@ + owner@ + "/"@ + repository@,
        u.new_message_count == new_message_count,
        rfc3339_utc(latest_message_at) == Some(u.latest_message_at@),
        rfc3339_utc(last_opened_at) == Some(u.last_opened_at@),
{
    OwnerRoomUpdate {
        url: room_url(base_url, owner.as_str(), repository.as_str()),
        owner,
        repository,
        new_message_count,
        latest_message_at: timestamp(latest_message_at),
        last_opened_at: timestamp(last_opened_at),
    }
}

/// One poll per key per minute: after a key polls at `t`, a poll at any
/// `later` less than a minute on is refused and told to wait until `t + 60`,
/// and a poll a minute or more on is accepted.
pub proof fn law_one_poll_per_minute(user_id: i64, t: i64, later: i64)
    requires
        t <= later,
        later >= i64::MIN + OWNER_API_POLL_SECONDS,
    ensures
        ({
            let after = ApiKeyRecord { user_id, last_polled_at: Some(t) };
            &&& later < t + OWNER_API_POLL_SECONDS ==> poll_outcome(Some(after), later) == Err::<
                ApiKeyRecord,
                AppError,
            >(AppError::PollingTooQuickly((t + OWNER_API_POLL_SECONDS - later) as i64))
            &&& later >= t + OWNER_API_POLL_SECONDS ==> poll_outcome(Some(after), later) == Ok::<
                ApiKeyRecord,
                AppError,
            >(ApiKeyRecord { user_id, last_polled_at: Some(later) })
        }),
{
}

/// A successful poll records the time it was made, and only that.
pub proof fn law_poll_marks_time(record: Option<ApiKeyRecord>, now: i64)
    requires
        poll_outcome(record, now) is Ok,
    ensures
        record is Some,
        poll_outcome(record, now)->Ok_0.user_id == record->Some_0.user_id,
        poll_outcome(record, now)->Ok_0.last_polled_at == Some(now),
{
}

/// When a key that had last polled at `last` (`None`: never) has last
/// polled after polling at each of `times` in turn; an accepted poll records
/// its time, a refused one records nothing.
pub open spec fn last_poll_after(last: Option<i64>, times: Seq<i64>) -> Option<i64>
    decreases times.len(),
{
    if times.len() == 0 {
        last
    } else {
        let prev = last_poll_after(last, times.drop_last());
        if may_poll(prev, times.last()) {
            Some(times.last())
        } else {
            prev
        }
    }
}

/// The outcome of the poll at `times[k]` by the key of `user_id` that had
/// last polled at `last` before the polls at `times`.
pub open spec fn poll_at(user_id: i64, last: Option<i64>, times: Seq<i64>, k: int) -> Result<
    ApiKeyRecord,
    AppError,
> {
    poll_outcome(
        Some(ApiKeyRecord { user_id, last_polled_at: last_poll_after(last, times.take(k)) }),
        times[k],
    )
}

proof fn lemma_last_poll_grows(last: Option<i64>, times: Seq<i64>, i: int, n: int)
    requires
        0 <= i < n <= times.len(),
        may_poll(last_poll_after(last, times.take(i)), times[i]),
    ensures
        last_poll_after(last, times.take(n)) matches Some(l) && l >= times[i],
    decreases n,
{
    assert(times.take(n).drop_last() =~= times.take(n - 1));
    if n > i + 1 {
        lemma_last_poll_grows(last, times, i, n - 1);
    }
}

proof fn lemma_last_poll_range(last: Option<i64>, times: Seq<i64>)
    requires
        forall|i: int| 0 <= i < times.len() ==> MIN_TIMESTAMP <= #[trigger] times[i] <= MAX_TIMESTAMP,
        last matches Some(l) ==> MIN_TIMESTAMP <= l <= MAX_TIMESTAMP,
    ensures
        last_poll_after(last, times) matches Some(l) ==> MIN_TIMESTAMP <= l <= MAX_TIMESTAMP,
    decreases times.len(),
{
    if times.len() > 0 {
        let s = times.drop_last();
        assert forall|i: int| 0 <= i < s.len() implies MIN_TIMESTAMP <= #[trigger] s[i]
            <= MAX_TIMESTAMP by {
            assert(s[i] == times[i]);
        }
        lemma_last_poll_range(last, s);
    }
}

/// Over any run of polls with one key, two accepted polls are at least a
/// minute apart.
pub proof fn law_accepted_polls_are_a_minute_apart(
    user_id: i64,
    last: Option<i64>,
    times: Seq<i64>,
    i: int,
    j: int,
)
    requires
        0 <= i < j < times.len(),
        poll_at(user_id, last, times, i) is Ok,
        poll_at(user_id, last, times, j) is Ok,
    ensures
        times[j] - times[i] >= OWNER_API_POLL_SECONDS,
{
    lemma_last_poll_grows(last, times, i, j);
}

/// Over any run of polls with one key, a refused poll at `t` is told to
/// wait `s >= 1` seconds, where `t + s` is a minute after the last accepted
/// poll: the first time at which the key may poll again.
pub proof fn law_refused_poll_names_the_next(
    user_id: i64,
    last: Option<i64>,
    times: Seq<i64>,
    k: int,
)
    requires
        0 <= k < times.len(),
        poll_at(user_id, last, times, k) is Err,
        forall|i: int| 0 <= i < times.len() ==> MIN_TIMESTAMP <= #[trigger] times[i] <= MAX_TIMESTAMP,
        last matches Some(l) ==> MIN_TIMESTAMP <= l <= MAX_TIMESTAMP,
    ensures
        last_poll_after(last, times.take(k)) is Some,
        ({
            let l = last_poll_after(last, times.take(k))->Some_0;
            let s = l + OWNER_API_POLL_SECONDS - times[k];
            &&& s >= 1
            &&& poll_at(user_id, last, times, k) == Err::<ApiKeyRecord, AppError>(
                AppError::PollingTooQuickly(s as i64),
            )
            &&& forall|t: i64| may_poll(Some(l), t) <==> t >= times[k] + s
        }),
{
    let p = times.take(k);
    assert forall|i: int| 0 <= i < p.len() implies MIN_TIMESTAMP <= #[trigger] p[i]
        <= MAX_TIMESTAMP by {
        assert(p[i] == times[i]);
    }
    lemma_last_poll_range(last, p);
    assert(MIN_TIMESTAMP <= times[k] <= MAX_TIMESTAMP);
}

} // verus!
