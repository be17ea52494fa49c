//! The sliding one-minute window that limits how often an account, and an
//! address, may post.
use std::collections::VecDeque;
use vstd::hash_map::StringHashMap;
use vstd::prelude::*;
use crate::error::AppError;
use crate::text::{signed_decimal, signed_decimal_string};

verus! {

broadcast use {vstd::string::group_string_axioms, vstd::std_specs::vecdeque::group_vec_dequeue_axioms};

/// The length of the window, in nanoseconds (one minute).
pub const WINDOW_NANOS: u64 = 60_000_000_000;

/// Posts one account may make per window.
pub const USER_ALLOWANCE: usize = 20;

/// Posts one network address may make per window.
pub const IP_ALLOWANCE: usize = 60;

/// Time from `t` to `now`, or zero when `t` is later (`Instant::duration_since`).
pub open spec fn elapsed(now: u64, t: u64) -> nat {
    if now >= t {
        (now - t) as nat
    } else {
        0
    }
}

/// Whether an attempt made at `t` has left the window at `now`.
pub open spec fn expired(now: u64, t: u64) -> bool {
    elapsed(now, t) >= WINDOW_NANOS
}

/// The number of leading attempts of `q` that have left the window.
pub open spec fn expired_prefix(q: Seq<u64>, now: u64) -> nat
    decreases q.len(),
{
    if q.len() > 0 && expired(now, q[0]) {
        1 + expired_prefix(q.drop_first(), now)
    } else {
        0
    }
}

/// `q` without its leading expired attempts.
pub open spec fn pruned(q: Seq<u64>, now: u64) -> Seq<u64> {
    q.skip(expired_prefix(q, now) as int)
}

/// The attempts recorded under `key`.
pub open spec fn attempts_of(m: Map<Seq<char>, Seq<u64>>, key: Seq<char>) -> Seq<u64> {
    if m.contains_key(key) {
        m[key]
    } else {
        Seq::empty()
    }
}

/// Whether an attempt under `key` at `now` is let through.
pub open spec fn admits(m: Map<Seq<char>, Seq<u64>>, key: Seq<char>, now: u64, allowance: nat) -> bool {
    pruned(attempts_of(m, key), now).len() < allowance
}

/// The attempts kept under a key that held `q`, after an attempt at `now`:
/// the expired attempts at the front are dropped, and the new one is added
/// when fewer than `allowance` remain.
pub open spec fn kept_after(q: Seq<u64>, now: u64, allowance: nat) -> Seq<u64> {
    let p = pruned(q, now);
    if p.len() < allowance {
        p.push(now)
    } else {
        p
    }
}

/// The record after an attempt under `key` at `now`: the expired attempts of
/// `key` are dropped, and the attempt is added when it is let through.
pub open spec fn after_attempt(
    m: Map<Seq<char>, Seq<u64>>,
    key: Seq<char>,
    now: u64,
    allowance: nat,
) -> Map<Seq<char>, Seq<u64>> {
    m.insert(key, kept_after(attempts_of(m, key), now, allowance))
}

/// The key under which an account's posts are counted.
pub open spec fn user_key(user_id: i64) -> Seq<char> {
    "user:"@ + signed_decimal(user_id as int)
}

/// The key under which an address's posts are counted.
pub open spec fn ip_key(ip: Seq<char>) -> Seq<char> {
    "ip:"@ + ip
}

/// Whether a post by `user_id` from the address `ip` at `now` gets through:
/// the account's attempt is let through, and then the address's.
pub open spec fn post_admitted(m: Map<Seq<char>, Seq<u64>>, user_id: i64, ip: Seq<char>, now: u64) -> bool {
    &&& admits(m, user_key(user_id), now, USER_ALLOWANCE as nat)
    &&& admits(
        after_attempt(m, user_key(user_id), now, USER_ALLOWANCE as nat),
        ip_key(ip),
        now,
        IP_ALLOWANCE as nat,
    )
}

/// The record after a post by `user_id` from `ip` at `now`: the account's
/// attempt is counted, and the address's only when the account's got through.
pub open spec fn after_post(m: Map<Seq<char>, Seq<u64>>, user_id: i64, ip: Seq<char>, now: u64) -> Map<
    Seq<char>,
    Seq<u64>,
> {
    let m1 = after_attempt(m, user_key(user_id), now, USER_ALLOWANCE as nat);
    if admits(m, user_key(user_id), now, USER_ALLOWANCE as nat) {
        after_attempt(m1, ip_key(ip), now, IP_ALLOWANCE as nat)
    } else {
        m1
    }
}

/// The recent post attempts of each account and address.
pub struct RateLimiter {
    attempts: StringHashMap<VecDeque<u64>>,
}

impl View for RateLimiter {
    type V = Map<Seq<char>, Seq<u64>>;

    closed spec fn view(&self) -> Map<Seq<char>, Seq<u64>> {
        self.attempts@.map_values(|q: VecDeque<u64>| q@)
    }
}

impl RateLimiter {
    /// A limiter that has seen no attempt.
    pub fn new() -> (r: RateLimiter)
        ensures
            r@ == Map::<Seq<char>, Seq<u64>>::empty(),
    {
        let r = RateLimiter { attempts: StringHashMap::new() };
        assert(r@ =~= Map::<Seq<char>, Seq<u64>>::empty());
        r
    }

    /// Records an attempt under `key` at `now` (nanoseconds on a monotonic
    /// clock) and says whether it is let through: it is when fewer than
    /// `allowance` earlier attempts under `key` remain in the window once the
    /// expired ones at its front are dropped.
    pub fn attempt(&mut self, key: String, now: u64, allowance: usize) -> (ok: bool)
        ensures
            ok == admits(old(self)@, key@, now, allowance as nat),
            final(self)@ == after_attempt(old(self)@, key@, now, allowance as nat),
    {
        let ghost m = self@;
        let mut kept: VecDeque<u64> = VecDeque::new();
        match self.attempts.get(key.as_str()) {
            Some(q) => {
                let ghost s = q@;
                assert(attempts_of(m, key@) == s);
                let mut i: usize = 0;
                while i < q.len() && now.saturating_sub(q[i]) >= WINDOW_NANOS
                    invariant
                        s == q@,
                        i <= q@.len(),
                        forall|j: int| 0 <= j < i ==> expired(now, s[j]),
                    decreases q@.len() - i,
                {
                    i = i + 1;
                }
                proof {
                    lemma_expired_prefix(s, now, i as int);
                }
                while i < q.len()
                    invariant
                        s == q@,
                        expired_prefix(s, now) <= i <= q@.len(),
                        kept@ == s.subrange(expired_prefix(s, now) as int, i as int),
                    decreases q@.len() - i,
                {
                    kept.push_back(q[i]);
                    i = i + 1;
                    assert(kept@ =~= s.subrange(expired_prefix(s, now) as int, i as int));
                }
                assert(kept@ =~= pruned(s, now));
            },
            None => {
                assert(attempts_of(m, key@) =~= Seq::<u64>::empty());
                assert(kept@ =~= pruned(Seq::<u64>::empty(), now));
            },
        }
        let ok = kept.len() < allowance;
        if ok {
            kept.push_back(now);
        }
        self.attempts.insert(key, kept);
        assert(self@ =~= after_attempt(m, key@, now, allowance as nat));
        ok
    }

    /// Counts a post by `user_id` from the address `ip` at `now` against the
    /// per-account limit and then, if that let it through, against the
    /// per-address limit.
    pub fn enforce_post_limit(&mut self, user_id: i64, ip: &str, now: u64) -> (r: Result<
        (),
        AppError,
    >)
        ensures
            final(self)@ == after_post(old(self)@, user_id, ip@, now),
            post_admitted(old(self)@, user_id, ip@, now) ==> r is Ok,
            !post_admitted(old(self)@, user_id, ip@, now) ==> r matches Err(AppError::RateLimited),
    {
        let mut user = "user:".to_string();
        let id = signed_decimal_string(user_id);
        user.append(id.as_str());
        if !self.attempt(user, now, USER_ALLOWANCE) {
            return Err(AppError::RateLimited);
        }
        let mut address = "ip:".to_string();
        address.append(ip);
        if !self.attempt(address, now, IP_ALLOWANCE) {
            return Err(AppError::RateLimited);
        }
        Ok(())
    }
}

proof fn lemma_expired_prefix(q: Seq<u64>, now: u64, k: int)
    requires
        0 <= k <= q.len(),
        forall|j: int| 0 <= j < k ==> expired(now, q[j]),
        k == q.len() || !expired(now, q[k]),
    ensures
        expired_prefix(q, now) == k,
    decreases k,
{
    if k > 0 {
        lemma_expired_prefix(q.drop_first(), now, k - 1);
    }
}

proof fn lemma_expired_prefix_bounds(q: Seq<u64>, now: u64)
    ensures
        expired_prefix(q, now) <= q.len(),
        expired_prefix(q, now) < q.len() ==> !expired(now, q[expired_prefix(q, now) as int]),
    decreases q.len(),
{
    if q.len() > 0 && expired(now, q[0]) {
        lemma_expired_prefix_bounds(q.drop_first(), now);
        assert(q.drop_first().len() > 0 ==> q.drop_first()[0] == q[1]);
    }
}

/// Attempts recorded in order, none later than `now`.
pub open spec fn ordered_until(q: Seq<u64>, now: u64) -> bool {
    &&& forall|i: int, j: int| 0 <= i <= j < q.len() ==> q[i] <= q[j]
    &&& forall|i: int| 0 <= i < q.len() ==> q[i] <= now
}

/// Under a clock that does not go back, the attempts a key keeps are always
/// ordered, all within the last minute, and never more than its allowance:
/// at most `allowance` posts under one key are let through in any minute.
pub proof fn law_window_is_bounded(
    m: Map<Seq<char>, Seq<u64>>,
    key: Seq<char>,
    now: u64,
    allowance: nat,
)
    requires
        ordered_until(attempts_of(m, key), now),
        attempts_of(m, key).len() <= allowance,
    ensures
        ({
            let q = after_attempt(m, key, now, allowance)[key];
            &&& ordered_until(q, now)
            &&& q.len() <= allowance
            &&& forall|i: int| 0 <= i < q.len() ==> !expired(now, #[trigger] q[i])
            &&& forall|k: Seq<char>|
                k != key ==> attempts_of(after_attempt(m, key, now, allowance), k) == attempts_of(
                    m,
                    k,
                )
        }),
{
    let s = attempts_of(m, key);
    let e = expired_prefix(s, now);
    lemma_expired_prefix_bounds(s, now);
    let p = pruned(s, now);
    assert forall|i: int| 0 <= i < p.len() implies !expired(now, #[trigger] p[i]) by {
        assert(p[i] == s[e + i]);
        assert(s[e as int] <= s[e + i]);
    }
    let q = after_attempt(m, key, now, allowance)[key];
    if admits(m, key, now, allowance) {
        assert(q == p.push(now));
        assert forall|i: int| 0 <= i < q.len() implies !expired(now, #[trigger] q[i]) by {
            if i < p.len() {
                assert(q[i] == p[i]);
            }
        }
    }
    assert forall|k: Seq<char>| k != key implies attempts_of(
        after_attempt(m, key, now, allowance),
        k,
    ) == attempts_of(m, k) by {}
}

// ---------------------------------------------------------------------------
// Posts over time
// ---------------------------------------------------------------------------
/// The record after the posts `calls`, each an account, an address and a
/// time, made in order on a limiter that had seen nothing.
pub open spec fn limiter_after(calls: Seq<(i64, Seq<char>, u64)>) -> Map<Seq<char>, Seq<u64>>
    decreases calls.len(),
{
    if calls.len() == 0 {
        Map::empty()
    } else {
        let c = calls.last();
        after_post(limiter_after(calls.drop_last()), c.0, c.1, c.2)
    }
}

/// Whether the post `calls[k]` got through.
pub open spec fn post_ok_at(calls: Seq<(i64, Seq<char>, u64)>, k: int) -> bool {
    post_admitted(limiter_after(calls.take(k)), calls[k].0, calls[k].1, calls[k].2)
}

/// The number of posts of `calls` by `user_id` that got through at a time
/// from `lo` up to, not including, `hi`.
pub open spec fn user_posts_in(calls: Seq<(i64, Seq<char>, u64)>, user_id: i64, lo: int, hi: int) -> nat
    decreases calls.len(),
{
    if calls.len() == 0 {
        0
    } else {
        let k = calls.len() - 1;
        user_posts_in(calls.drop_last(), user_id, lo, hi) + if calls[k].0 == user_id && post_ok_at(
            calls,
            k,
        ) && lo <= calls[k].2 < hi {
            1nat
        } else {
            0nat
        }
    }
}

/// The number of posts of `calls` from the address `ip` that got through at
/// a time from `lo` up to, not including, `hi`.
pub open spec fn ip_posts_in(calls: Seq<(i64, Seq<char>, u64)>, ip: Seq<char>, lo: int, hi: int) -> nat
    decreases calls.len(),
{
    if calls.len() == 0 {
        0
    } else {
        let k = calls.len() - 1;
        ip_posts_in(calls.drop_last(), ip, lo, hi) + if calls[k].1 == ip && post_ok_at(calls, k) && lo
            <= calls[k].2 < hi {
            1nat
        } else {
            0nat
        }
    }
}

spec fn sorted(ts: Seq<u64>) -> bool {
    forall|i: int, j: int| 0 <= i <= j < ts.len() ==> ts[i] <= ts[j]
}

/// The allowance of a key: addresses have the larger one.
spec fn allowance_of(key: Seq<char>) -> nat {
    if key.len() > 0 && key[0] == 'i' {
        IP_ALLOWANCE as nat
    } else {
        USER_ALLOWANCE as nat
    }
}

/// The times of the attempts that `calls` made under `key`, in order.
spec fn key_times(calls: Seq<(i64, Seq<char>, u64)>, key: Seq<char>) -> Seq<u64>
    decreases calls.len(),
{
    if calls.len() == 0 {
        Seq::empty()
    } else {
        let prev = key_times(calls.drop_last(), key);
        let c = calls.last();
        let m = limiter_after(calls.drop_last());
        let with_user = if user_key(c.0) == key {
            prev.push(c.2)
        } else {
            prev
        };
        if admits(m, user_key(c.0), c.2, USER_ALLOWANCE as nat) && ip_key(c.1) == key {
            with_user.push(c.2)
        } else {
            with_user
        }
    }
}

/// The attempts kept under one key after attempts on it at the times `ts`.
spec fn queue_after(ts: Seq<u64>, allowance: nat) -> Seq<u64>
    decreases ts.len(),
{
    if ts.len() == 0 {
        Seq::empty()
    } else {
        kept_after(queue_after(ts.drop_last(), allowance), ts.last(), allowance)
    }
}

/// Whether the last attempt of `ts` was let through.
spec fn last_admitted(ts: Seq<u64>, allowance: nat) -> bool {
    ts.len() > 0 && pruned(queue_after(ts.drop_last(), allowance), ts.last()).len() < allowance
}

/// The attempts of `ts` let through at a time in `[lo, hi)`.
spec fn admitted_in(ts: Seq<u64>, allowance: nat, lo: int, hi: int) -> nat
    decreases ts.len(),
{
    if ts.len() == 0 {
        0
    } else {
        admitted_in(ts.drop_last(), allowance, lo, hi) + if last_admitted(ts, allowance) && lo
            <= ts.last() < hi {
            1nat
        } else {
            0nat
        }
    }
}

/// The attempts of `ts` let through at a time after `c`.
spec fn admitted_above(ts: Seq<u64>, allowance: nat, c: int) -> nat
    decreases ts.len(),
{
    if ts.len() == 0 {
        0
    } else {
        admitted_above(ts.drop_last(), allowance, c) + if last_admitted(ts, allowance) && ts.last()
            > c {
            1nat
        } else {
            0nat
        }
    }
}

/// The elements of `q` after `c`.
spec fn count_above(q: Seq<u64>, c: int) -> nat
    decreases q.len(),
{
    if q.len() == 0 {
        0
    } else {
        count_above(q.drop_last(), c) + if q.last() > c {
            1nat
        } else {
            0nat
        }
    }
}

proof fn lemma_count_above_push(q: Seq<u64>, t: u64, c: int)
    ensures
        count_above(q.push(t), c) == count_above(q, c) + if t > c {
            1nat
        } else {
            0nat
        },
{
    assert(q.push(t).drop_last() =~= q);
}

proof fn lemma_count_above_len(q: Seq<u64>, c: int)
    ensures
        count_above(q, c) <= q.len(),
    decreases q.len(),
{
    if q.len() > 0 {
        lemma_count_above_len(q.drop_last(), c);
    }
}

proof fn lemma_count_above_skip(q: Seq<u64>, e: int, c: int)
    requires
        0 <= e <= q.len(),
        forall|i: int| 0 <= i < e ==> q[i] <= c,
    ensures
        count_above(q.skip(e), c) == count_above(q, c),
    decreases q.len(),
{
    if q.len() > e {
        lemma_count_above_skip(q.drop_last(), e, c);
        assert(q.skip(e).drop_last() =~= q.drop_last().skip(e));
    } else if q.len() > 0 {
        lemma_count_above_skip(q.drop_last(), e - 1, c);
        assert(q.drop_last().skip(e - 1).len() == 0);
        assert(q.skip(e).len() == 0);
    }
}

proof fn lemma_expired_prefix_all(q: Seq<u64>, now: u64)
    ensures
        forall|i: int| 0 <= i < expired_prefix(q, now) ==> expired(now, #[trigger] q[i]),
    decreases q.len(),
{
    lemma_expired_prefix_bounds(q, now);
    if q.len() > 0 && expired(now, q[0]) {
        lemma_expired_prefix_all(q.drop_first(), now);
        assert forall|i: int| 0 <= i < expired_prefix(q, now) implies expired(now, #[trigger] q[i]) by {
            if i > 0 {
                assert(q[i] == q.drop_first()[i - 1]);
            }
        }
    }
}

/// Pruning at `now` drops only attempts at or before `now - WINDOW_NANOS`.
proof fn lemma_pruned_count(q: Seq<u64>, now: u64, c: int)
    requires
        c >= now - WINDOW_NANOS,
    ensures
        count_above(pruned(q, now), c) == count_above(q, c),
{
    lemma_expired_prefix_bounds(q, now);
    lemma_expired_prefix_all(q, now);
    let e = expired_prefix(q, now) as int;
    assert forall|i: int| 0 <= i < e implies q[i] <= c by {
        assert(expired(now, q[i]));
    }
    lemma_count_above_skip(q, e, c);
}

/// The attempts kept under a key are exactly those let through and not
/// yet dropped, and nothing later than a minute before the last attempt has
/// been dropped.
proof fn lemma_queue_counts(ts: Seq<u64>, allowance: nat, c: int)
    requires
        sorted(ts),
        ts.len() > 0 ==> c >= ts.last() - WINDOW_NANOS,
    ensures
        count_above(queue_after(ts, allowance), c) == admitted_above(ts, allowance, c),
    decreases ts.len(),
{
    if ts.len() > 0 {
        let s = ts.drop_last();
        let t = ts.last();
        if s.len() > 0 {
            assert(s.last() <= t);
        }
        lemma_queue_counts(s, allowance, c);
        let q = queue_after(s, allowance);
        lemma_pruned_count(q, t, c);
        let p = pruned(q, t);
        if p.len() < allowance {
            lemma_count_above_push(p, t, c);
        }
    }
}

proof fn lemma_window_within_above(ts: Seq<u64>, allowance: nat, lo: int, hi: int, c: int)
    requires
        lo > c,
    ensures
        admitted_in(ts, allowance, lo, hi) <= admitted_above(ts, allowance, c),
    decreases ts.len(),
{
    if ts.len() > 0 {
        lemma_window_within_above(ts.drop_last(), allowance, lo, hi, c);
    }
}

/// On one key, at most `allowance` attempts are let through in any span of
/// one minute.
proof fn lemma_key_window(ts: Seq<u64>, allowance: nat, lo: int, hi: int)
    requires
        sorted(ts),
        hi <= lo + WINDOW_NANOS,
    ensures
        admitted_in(ts, allowance, lo, hi) <= allowance,
    decreases ts.len(),
{
    if ts.len() > 0 {
        let s = ts.drop_last();
        let t = ts.last();
        lemma_key_window(s, allowance, lo, hi);
        if last_admitted(ts, allowance) && lo <= t < hi {
            let c = t - WINDOW_NANOS;
            if s.len() > 0 {
                assert(s.last() <= t);
            }
            lemma_window_within_above(s, allowance, lo, hi, c);
            lemma_queue_counts(s, allowance, c);
            let q = queue_after(s, allowance);
            lemma_pruned_count(q, t, c);
            lemma_count_above_len(pruned(q, t), c);
        }
    }
}

proof fn lemma_keys_differ(user_id: i64, ip: Seq<char>)
    ensures
        user_key(user_id) != ip_key(ip),
        allowance_of(user_key(user_id)) == USER_ALLOWANCE,
        allowance_of(ip_key(ip)) == IP_ALLOWANCE,
{
    reveal_strlit("user:");
    reveal_strlit("ip:");
    assert(user_key(user_id)[0] == 'u');
    assert(ip_key(ip)[0] == 'i');
}

/// What the limiter keeps under `key` follows from the attempts made on it alone.
proof fn lemma_key_queue(calls: Seq<(i64, Seq<char>, u64)>, key: Seq<char>)
    ensures
        attempts_of(limiter_after(calls), key) == queue_after(key_times(calls, key), allowance_of(key)),
    decreases calls.len(),
{
    if calls.len() > 0 {
        let prev = calls.drop_last();
        lemma_key_queue(prev, key);
        let c = calls.last();
        lemma_keys_differ(c.0, c.1);
        let pt = key_times(prev, key);
        let t1 = if user_key(c.0) == key {
            pt.push(c.2)
        } else {
            pt
        };
        assert(pt.push(c.2).drop_last() =~= pt);
        assert(t1.push(c.2).drop_last() =~= t1);
    }
}

proof fn lemma_key_times_sorted(calls: Seq<(i64, Seq<char>, u64)>, key: Seq<char>)
    requires
        forall|i: int, j: int| 0 <= i <= j < calls.len() ==> calls[i].2 <= calls[j].2,
    ensures
        sorted(key_times(calls, key)),
        calls.len() > 0 ==> forall|i: int|
            0 <= i < key_times(calls, key).len() ==> key_times(calls, key)[i] <= calls.last().2,
    decreases calls.len(),
{
    if calls.len() > 0 {
        let prev = calls.drop_last();
        lemma_key_times_sorted(prev, key);
        let t = calls.last().2;
        let pt = key_times(prev, key);
        if prev.len() > 0 {
            assert(prev.last().2 <= t);
        }
        assert forall|i: int| 0 <= i < pt.len() implies pt[i] <= t by {}
    }
}

proof fn lemma_admitted_in_push(ts: Seq<u64>, x: u64, allowance: nat, lo: int, hi: int)
    ensures
        admitted_in(ts, allowance, lo, hi) <= admitted_in(ts.push(x), allowance, lo, hi),
{
    assert(ts.push(x).drop_last() =~= ts);
}

proof fn lemma_user_posts(calls: Seq<(i64, Seq<char>, u64)>, user_id: i64, lo: int, hi: int)
    ensures
        user_posts_in(calls, user_id, lo, hi) <= admitted_in(
            key_times(calls, user_key(user_id)),
            USER_ALLOWANCE as nat,
            lo,
            hi,
        ),
    decreases calls.len(),
{
    if calls.len() > 0 {
        let prev = calls.drop_last();
        let k = calls.len() - 1;
        let c = calls.last();
        let key = user_key(user_id);
        lemma_user_posts(prev, user_id, lo, hi);
        assert(calls.take(k) =~= prev);
        lemma_key_queue(prev, key);
        lemma_keys_differ(c.0, c.1);
        lemma_keys_differ(user_id, c.1);
        let pt = key_times(prev, key);
        lemma_admitted_in_push(pt, c.2, USER_ALLOWANCE as nat, lo, hi);
        assert(pt.push(c.2).drop_last() =~= pt);
    }
}

proof fn lemma_ip_posts(calls: Seq<(i64, Seq<char>, u64)>, ip: Seq<char>, lo: int, hi: int)
    ensures
        ip_posts_in(calls, ip, lo, hi) <= admitted_in(
            key_times(calls, ip_key(ip)),
            IP_ALLOWANCE as nat,
            lo,
            hi,
        ),
    decreases calls.len(),
{
    if calls.len() > 0 {
        let prev = calls.drop_last();
        let k = calls.len() - 1;
        let c = calls.last();
        let key = ip_key(ip);
        lemma_ip_posts(prev, ip, lo, hi);
        assert(calls.take(k) =~= prev);
        lemma_key_queue(prev, key);
        lemma_keys_differ(c.0, c.1);
        lemma_keys_differ(c.0, ip);
        let pt = key_times(prev, key);
        lemma_admitted_in_push(pt, c.2, IP_ALLOWANCE as nat, lo, hi);
        assert(pt.push(c.2).drop_last() =~= pt);
    }
}

/// Under a clock that does not go back, at most 20 posts of one account and
/// at most 60 posts from one address get through in any minute, however the
/// posts of all accounts and addresses interleave.
pub proof fn law_posts_per_minute(
    calls: Seq<(i64, Seq<char>, u64)>,
    user_id: i64,
    ip: Seq<char>,
    start: int,
)
    requires
        forall|i: int, j: int| 0 <= i <= j < calls.len() ==> calls[i].2 <= calls[j].2,
    ensures
        user_posts_in(calls, user_id, start, start + WINDOW_NANOS) <= USER_ALLOWANCE,
        ip_posts_in(calls, ip, start, start + WINDOW_NANOS) <= IP_ALLOWANCE,
{
    let hi = start + WINDOW_NANOS;
    lemma_user_posts(calls, user_id, start, hi);
    lemma_key_times_sorted(calls, user_key(user_id));
    lemma_key_window(key_times(calls, user_key(user_id)), USER_ALLOWANCE as nat, start, hi);
    lemma_ip_posts(calls, ip, start, hi);
    lemma_key_times_sorted(calls, ip_key(ip));
    lemma_key_window(key_times(calls, ip_key(ip)), IP_ALLOWANCE as nat, start, hi);
}

/// A refused post leaves no attempt under its address: what is kept there
/// afterwards is what was kept before, less some expired attempts at the front.
pub proof fn law_refused_post_leaves_no_address_attempt(
    m: Map<Seq<char>, Seq<u64>>,
    user_id: i64,
    ip: Seq<char>,
    now: u64,
)
    requires
        !post_admitted(m, user_id, ip, now),
    ensures
        exists|d: int|
            0 <= d <= attempts_of(m, ip_key(ip)).len() && attempts_of(
                after_post(m, user_id, ip, now),
                ip_key(ip),
            ) == #[trigger] attempts_of(m, ip_key(ip)).skip(d),
{
    lemma_keys_differ(user_id, ip);
    let q = attempts_of(m, ip_key(ip));
    if admits(m, user_key(user_id), now, USER_ALLOWANCE as nat) {
        lemma_expired_prefix_bounds(q, now);
        let d = expired_prefix(q, now) as int;
        assert(attempts_of(after_post(m, user_id, ip, now), ip_key(ip)) == q.skip(d));
    } else {
        assert(q.skip(0) =~= q);
        assert(attempts_of(after_post(m, user_id, ip, now), ip_key(ip)) == q.skip(0));
    }
}

} // verus!
