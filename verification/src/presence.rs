//! Who is in each room right now. A person counts once however many tabs or
//! devices they have open; presence is never stored.
use std::collections::HashMap;
use vstd::prelude::*;
use crate::access::AuthUser;

verus! {

broadcast use {vstd::std_specs::hash::group_hash_axioms, vstd::string::group_string_axioms};

/// A person present in a room.
#[derive(Debug)]
pub struct PresenceUser {
    /// Open connections of this person to the room.
    pub sockets: usize,
    pub github_id: i64,
    pub login: String,
    /// The pill this person has in the room, if any.
    pub affiliation: Option<String>,
}

/// The people present in each room, by room and then by account number.
pub struct Presence {
    rooms: HashMap<i64, HashMap<i64, PresenceUser>>,
}

/// The people present in one room.
pub type RoomMap = Map<i64, PresenceUser>;

impl View for Presence {
    type V = Map<i64, RoomMap>;

    closed spec fn view(&self) -> Map<i64, RoomMap> {
        self.rooms@.map_values(|r: HashMap<i64, PresenceUser>| r@)
    }
}

/// The people present in `room_id`; nobody when the room was never joined.
pub open spec fn room_of(m: Map<i64, RoomMap>, room_id: i64) -> RoomMap {
    if m.contains_key(room_id) {
        m[room_id]
    } else {
        Map::empty()
    }
}

/// Every present person has at least one open connection.
pub open spec fn well_formed(m: Map<i64, RoomMap>) -> bool {
    forall|r: i64, u: i64|
        m.contains_key(r) && #[trigger] m[r].contains_key(u) ==> m[r][u].sockets >= 1
}

/// `e` with `n` open connections.
pub open spec fn with_sockets(e: PresenceUser, n: nat) -> PresenceUser {
    PresenceUser { sockets: n as usize, github_id: e.github_id, login: e.login, affiliation: e.affiliation }
}

/// The room after `user` opens (`delta > 0`) or closes (otherwise) a connection.
pub open spec fn changed_room(
    room: RoomMap,
    user: AuthUser,
    affiliation: Option<String>,
    delta: i32,
) -> RoomMap {
    let u = user.id;
    if delta > 0 {
        if room.contains_key(u) {
            room.insert(u, with_sockets(room[u], (room[u].sockets + 1) as nat))
        } else {
            room.insert(
                u,
                PresenceUser {
                    sockets: 1,
                    github_id: user.github_id,
                    login: user.login,
                    affiliation: affiliation,
                },
            )
        }
    } else if room.contains_key(u) {
        if room[u].sockets <= 1 {
            room.remove(u)
        } else {
            room.insert(u, with_sockets(room[u], (room[u].sockets - 1) as nat))
        }
    } else {
        room
    }
}

/// The entries `(github_id, login, affiliation)` of the people listed in
/// `ks` who have an affiliation, in the order of `ks`.
pub open spec fn affiliated_entries(room: RoomMap, ks: Seq<i64>) -> Seq<(i64, Seq<char>, Seq<char>)>
    decreases ks.len(),
{
    if ks.len() == 0 {
        Seq::empty()
    } else {
        let rest = affiliated_entries(room, ks.drop_last());
        let e = room[ks.last()];
        match e.affiliation {
            Some(a) => rest.push((e.github_id, e.login@, a@)),
            None => rest,
        }
    }
}

pub open spec fn entry_views(v: Seq<(i64, String, String)>) -> Seq<(i64, Seq<char>, Seq<char>)> {
    v.map_values(|t: (i64, String, String)| (t.0, t.1@, t.2@))
}

impl Presence {
    /// Every present person has at least one open connection.
    #[verifier::type_invariant]
    spec fn connected(self) -> bool {
        well_formed(self@)
    }

    /// Nobody is present anywhere.
    pub fn new() -> (r: Presence)
        ensures
            r@ == Map::<i64, RoomMap>::empty(),
            well_formed(r@),
    {
        let r = Presence { rooms: HashMap::new() };
        assert(r@ =~= Map::<i64, RoomMap>::empty());
        r
    }

    /// Records that `user` opened (`delta > 0`) or closed (otherwise) a
    /// connection to `room_id`, and says whether that made them arrive or leave.
    pub fn change_presence(
        &mut self,
        room_id: i64,
        user: &AuthUser,
        affiliation: Option<String>,
        delta: i32,
    ) -> (changed: bool)
        requires
            delta > 0 && room_of(old(self)@, room_id).contains_key(user.id) ==> room_of(
                old(self)@,
                room_id,
            )[user.id].sockets < usize::MAX,
        ensures
            final(self)@ == old(self)@.insert(
                room_id,
                changed_room(room_of(old(self)@, room_id), *user, affiliation, delta),
            ),
            changed == (room_of(old(self)@, room_id).contains_key(user.id) != changed_room(
                room_of(old(self)@, room_id),
                *user,
                affiliation,
                delta,
            ).contains_key(user.id)),
            well_formed(final(self)@),
    {
        proof {
            use_type_invariant(&*self);
        }
        let ghost m = self@;
        let ghost room0 = room_of(m, room_id);
        let mut rooms: HashMap<i64, HashMap<i64, PresenceUser>> = HashMap::new();
        std::mem::swap(&mut rooms, &mut self.rooms);
        assert(rooms@.map_values(|r: HashMap<i64, PresenceUser>| r@) == m);
        let mut room = match rooms.remove(&room_id) {
            Some(r) => r,
            None => HashMap::new(),
        };
        assert(room@ == room0);
        let u = user.id;
        let was_present = room.contains_key(&u);
        if delta > 0 {
            match room.remove(&u) {
                Some(e) => {
                    let e2 = PresenceUser {
                        sockets: e.sockets + 1,
                        github_id: e.github_id,
                        login: e.login,
                        affiliation: e.affiliation,
                    };
                    room.insert(u, e2);
                },
                None => {
                    room.insert(
                        u,
                        PresenceUser {
                            sockets: 1,
                            github_id: user.github_id,
                            login: user.login.clone(),
                            affiliation,
                        },
                    );
                },
            }
        } else {
            match room.remove(&u) {
                Some(e) => {
                    if e.sockets > 1 {
                        let e2 = PresenceUser {
                            sockets: e.sockets - 1,
                            github_id: e.github_id,
                            login: e.login,
                            affiliation: e.affiliation,
                        };
                        room.insert(u, e2);
                    }
                },
                None => {},
            }
        }
        let now_present = room.contains_key(&u);
        let ghost new_room = room@;
        assert(new_room =~= changed_room(room0, *user, affiliation, delta));
        rooms.insert(room_id, room);
        assert(rooms@.map_values(|r: HashMap<i64, PresenceUser>| r@) =~= m.insert(room_id, new_room));
        self.rooms = rooms;
        was_present != now_present
    }

    /// The open connections of account `user_id` to `room_id`.
    pub fn sockets(&self, room_id: i64, user_id: i64) -> (n: usize)
        ensures
            room_of(self@, room_id).contains_key(user_id) ==> n == room_of(self@, room_id)[user_id].sockets,
            !room_of(self@, room_id).contains_key(user_id) ==> n == 0,
    {
        match self.rooms.get(&room_id) {
            Some(room) => match room.get(&user_id) {
                Some(e) => e.sockets,
                None => 0,
            },
            None => 0,
        }
    }

    /// How many people are in `room_id`, and the id, login and pill of each
    /// of them who has a pill, in no particular order.
    pub fn summary(&self, room_id: i64) -> (r: (usize, Vec<(i64, String, String)>))
        ensures
            r.0 == room_of(self@, room_id).len(),
            exists|ks: Seq<i64>|
                {
                    &&& ks.no_duplicates()
                    &&& ks.to_set() == room_of(self@, room_id).dom()
                    &&& entry_views(r.1@) == affiliated_entries(room_of(self@, room_id), ks)
                },
            r.1@.len() == room_of(self@, room_id).dom().filter(
                |u: i64| room_of(self@, room_id)[u].affiliation is Some,
            ).len(),
            forall|u: i64|
                room_of(self@, room_id).contains_key(u) && #[trigger] room_of(self@, room_id)[u].affiliation
                    is Some ==> entry_views(r.1@).contains(
                    (
                        room_of(self@, room_id)[u].github_id,
                        room_of(self@, room_id)[u].login@,
                        room_of(self@, room_id)[u].affiliation->Some_0@,
                    ),
                ),
    {
        let mut out: Vec<(i64, String, String)> = Vec::new();
        match self.rooms.get(&room_id) {
            None => {
                assert(room_of(self@, room_id) =~= Map::<i64, PresenceUser>::empty());
                assert(Seq::<i64>::empty().to_set() =~= Set::<i64>::empty());
                assert(entry_views(out@) =~= affiliated_entries(
                    room_of(self@, room_id),
                    Seq::empty(),
                ));
                proof {
                    law_summary_lists_every_pill(room_of(self@, room_id), Seq::empty());
                }
                (0, out)
            },
            Some(room) => {
                let ghost rm = room@;
                assert(rm == room_of(self@, room_id));
                let ghost mut ks: Seq<i64> = Seq::empty();
                for k in it: room.keys()
                    invariant
                        rm == room@,
                        it.seq().unref().no_duplicates(),
                        it.seq().unref().to_set() == rm.dom(),
                        ks == it.seq().unref().take(it.index() as int),
                        entry_views(out@) == affiliated_entries(rm, ks),
                        it.index() == it.seq().len() ==> (ks.no_duplicates() && ks.to_set()
                            == rm.dom()),
                {
                    let key = *k;
                    let e = room.get(&key).unwrap();
                    proof {
                        assert(it.seq().unref()[it.index() as int] == key);
                    }
                    match &e.affiliation {
                        Some(a) => {
                            out.push((e.github_id, e.login.clone(), a.clone()));
                        },
                        None => {},
                    }
                    proof {
                        let ks2 = ks.push(key);
                        assert(ks2 =~= it.seq().unref().take(it.index() + 1));
                        assert(ks2.drop_last() =~= ks);
                        assert(entry_views(out@) =~= affiliated_entries(rm, ks2));
                        if it.index() + 1 == it.seq().len() {
                            assert(ks2 =~= it.seq().unref());
                        }
                        ks = ks2;
                    }
                }
                proof {
                    law_summary_lists_every_pill(rm, ks);
                }
                (room.len(), out)
            },
        }
    }
}

/// Opening a connection and closing it again leaves the room as it was, and
/// both changes report an arrival and a departure exactly when the person was
/// not there before.
pub proof fn law_join_then_leave(
    room: RoomMap,
    user: AuthUser,
    affiliation: Option<String>,
    up: i32,
    down: i32,
)
    requires
        up > 0,
        down <= 0,
        forall|u: i64| #[trigger] room.contains_key(u) ==> room[u].sockets >= 1,
        room.contains_key(user.id) ==> room[user.id].sockets < usize::MAX,
    ensures
        changed_room(changed_room(room, user, affiliation, up), user, affiliation, down) == room,
        changed_room(room, user, affiliation, up).contains_key(user.id),
        changed_room(room, user, affiliation, up).dom() == room.dom().insert(user.id),
{
    let joined = changed_room(room, user, affiliation, up);
    let left = changed_room(joined, user, affiliation, down);
    if room.contains_key(user.id) {
        assert(left =~= room);
    } else {
        assert(left =~= room);
    }
    assert(joined.dom() =~= room.dom().insert(user.id));
}

/// The people among `ks` who have a pill, in the order of `ks`.
spec fn pilled_ids(room: RoomMap, ks: Seq<i64>) -> Seq<i64>
    decreases ks.len(),
{
    if ks.len() == 0 {
        Seq::empty()
    } else {
        let r = pilled_ids(room, ks.drop_last());
        if room[ks.last()].affiliation is Some {
            r.push(ks.last())
        } else {
            r
        }
    }
}

proof fn lemma_pilled_ids(room: RoomMap, ks: Seq<i64>)
    requires
        ks.no_duplicates(),
    ensures
        affiliated_entries(room, ks).len() == pilled_ids(room, ks).len(),
        pilled_ids(room, ks).no_duplicates(),
        forall|u: i64|
            #[trigger] pilled_ids(room, ks).contains(u) <==> (ks.contains(u) && room[u].affiliation
                is Some),
        forall|i: int|
            0 <= i < pilled_ids(room, ks).len() ==> affiliated_entries(room, ks)[i] == (
                room[pilled_ids(room, ks)[i]].github_id,
                room[pilled_ids(room, ks)[i]].login@,
                room[pilled_ids(room, ks)[i]].affiliation->Some_0@,
            ),
    decreases ks.len(),
{
    if ks.len() > 0 {
        let s = ks.drop_last();
        let x = ks.last();
        assert forall|i: int, j: int| 0 <= i < s.len() && 0 <= j < s.len() && i != j implies s[i]
            != s[j] by {
            assert(s[i] == ks[i] && s[j] == ks[j]);
        }
        lemma_pilled_ids(room, s);
        assert forall|u: i64| ks.contains(u) <==> (s.contains(u) || u == x) by {
            if ks.contains(u) {
                let i = choose|i: int| 0 <= i < ks.len() && ks[i] == u;
                if i < s.len() {
                    assert(s[i] == u);
                }
            }
            if s.contains(u) {
                let i = choose|i: int| 0 <= i < s.len() && s[i] == u;
                assert(ks[i] == u);
            }
            if u == x {
                assert(ks[ks.len() - 1] == u);
            }
        }
        assert(!s.contains(x)) by {
            if s.contains(x) {
                let i = choose|i: int| 0 <= i < s.len() && s[i] == x;
                assert(ks[i] == ks[ks.len() - 1]);
            }
        }
        let p = pilled_ids(room, s);
        if room[x].affiliation is Some {
            let q = p.push(x);
            assert forall|u: i64| q.contains(u) <==> (p.contains(u) || u == x) by {
                if q.contains(u) {
                    let i = choose|i: int| 0 <= i < q.len() && q[i] == u;
                    if i < p.len() {
                        assert(p[i] == u);
                    }
                }
                if p.contains(u) {
                    let i = choose|i: int| 0 <= i < p.len() && p[i] == u;
                    assert(q[i] == u);
                }
                if u == x {
                    assert(q[q.len() - 1] == u);
                }
            }
            assert(!p.contains(x));
            assert forall|i: int, j: int| 0 <= i < q.len() && 0 <= j < q.len() && i != j implies q[i]
                != q[j] by {
                if i < p.len() && j < p.len() {
                    assert(q[i] == p[i] && q[j] == p[j]);
                } else if i < p.len() {
                    assert(q[i] == p[i]);
                    assert(p.contains(p[i]));
                } else if j < p.len() {
                    assert(q[j] == p[j]);
                    assert(p.contains(p[j]));
                }
            }
        }
    }
}

/// The pill list of a room has exactly one entry for each person present
/// with a pill, whatever order the people are listed in: its length is the
/// number of people present with a pill, each of them appears in it with
/// their account number, login and pill, and every entry is such a person's.
pub proof fn law_summary_lists_every_pill(room: RoomMap, ks: Seq<i64>)
    requires
        ks.no_duplicates(),
        ks.to_set() == room.dom(),
    ensures
        affiliated_entries(room, ks).len() == room.dom().filter(
            |u: i64| room[u].affiliation is Some,
        ).len(),
        forall|u: i64|
            room.contains_key(u) && #[trigger] room[u].affiliation is Some ==> affiliated_entries(
                room,
                ks,
            ).contains((room[u].github_id, room[u].login@, room[u].affiliation->Some_0@)),
        forall|x: (i64, Seq<char>, Seq<char>)|
            #[trigger] affiliated_entries(room, ks).contains(x) ==> exists|u: i64|
                #![trigger room[u]]
                room.contains_key(u) && room[u].affiliation is Some && x == (
                    room[u].github_id,
                    room[u].login@,
                    room[u].affiliation->Some_0@,
                ),
{
    lemma_pilled_ids(room, ks);
    let p = pilled_ids(room, ks);
    let f = room.dom().filter(|u: i64| room[u].affiliation is Some);
    assert forall|u: i64| p.to_set().contains(u) <==> f.contains(u) by {
        assert(ks.to_set().contains(u) <==> ks.contains(u));
    }
    assert(p.to_set() =~= f);
    p.unique_seq_to_set();
    let e = affiliated_entries(room, ks);
    assert forall|u: i64| room.contains_key(u) && #[trigger] room[u].affiliation is Some implies e.contains(
        (room[u].github_id, room[u].login@, room[u].affiliation->Some_0@),
    ) by {
        assert(ks.to_set().contains(u));
        assert(p.contains(u));
        let i = choose|i: int| 0 <= i < p.len() && p[i] == u;
        assert(e[i] == (room[u].github_id, room[u].login@, room[u].affiliation->Some_0@));
    }
    assert forall|x: (i64, Seq<char>, Seq<char>)| #[trigger] e.contains(x) implies exists|u: i64|
        #![trigger room[u]]
        room.contains_key(u) && room[u].affiliation is Some && x == (
            room[u].github_id,
            room[u].login@,
            room[u].affiliation->Some_0@,
        ) by {
        let i = choose|i: int| 0 <= i < e.len() && e[i] == x;
        let u = p[i];
        assert(p.contains(u));
        assert(ks.to_set().contains(u));
        assert(room.contains_key(u) && room[u].affiliation is Some && x == (
            room[u].github_id,
            room[u].login@,
            room[u].affiliation->Some_0@,
        ));
    }
}

} // verus!
