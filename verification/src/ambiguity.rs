//! Display-name disambiguation: per room, a map from display name to the
//! set of active members carrying it.
//!
//! The cache keeps, per room it has seen, an effective member map (the
//! store's members overridden by the events of the current sync) and the
//! derived display-name buckets. Its well-formedness carries the law that
//! every bucket holds exactly the active members whose display name it is.

use vstd::prelude::*;

use crate::events::{Membership, StateContentV, StateEventInputV};
use crate::kmap::{KMap, StrSet};
use crate::store::StateStore;
use crate::util::DupView;

verus! {

/// What the cache keeps of one member: membership and display name.
#[derive(Clone, Debug)]
pub struct MemberSnapshot {
    pub membership: Membership,
    pub displayname: Option<String>,
}

#[verifier::ext_equal]
pub struct MemberSnapshotV {
    pub membership: Membership,
    pub displayname: Option<Seq<char>>,
}

impl DeepView for MemberSnapshot {
    type V = MemberSnapshotV;

    open spec fn deep_view(&self) -> MemberSnapshotV {
        MemberSnapshotV {
            membership: self.membership,
            displayname: self.displayname.deep_view(),
        }
    }
}

impl DupView for MemberSnapshot {
    fn dup(&self) -> (r: Self) {
        MemberSnapshot { membership: self.membership, displayname: self.displayname.dup() }
    }
}

/// A recorded transition of one member's disambiguation state.
#[derive(Clone, Debug)]
pub struct AmbiguityChange {
    pub user_id: String,
    pub ambiguous: bool,
}

#[verifier::ext_equal]
pub struct AmbiguityChangeV {
    pub user_id: Seq<char>,
    pub ambiguous: bool,
}

impl DeepView for AmbiguityChange {
    type V = AmbiguityChangeV;

    open spec fn deep_view(&self) -> AmbiguityChangeV {
        AmbiguityChangeV { user_id: self.user_id@, ambiguous: self.ambiguous }
    }
}

impl DupView for AmbiguityChange {
    fn dup(&self) -> (r: Self) {
        AmbiguityChange { user_id: self.user_id.clone(), ambiguous: self.ambiguous }
    }
}

/// The display name under which an active member is bucketed; an inactive
/// or nameless member is in no bucket.
pub open spec fn spec_named(s: MemberSnapshotV) -> Option<Seq<char>> {
    if s.membership.spec_is_active() {
        s.displayname
    } else {
        None
    }
}

/// The bucketed name of `user` in `room`, if any.
pub open spec fn spec_user_name(
    members: Map<(Seq<char>, Seq<char>), MemberSnapshotV>,
    room: Seq<char>,
    user: Seq<char>,
) -> Option<Seq<char>> {
    if members.contains_key((room, user)) {
        spec_named(members[(room, user)])
    } else {
        None
    }
}

/// The set of members a bucket must hold: those whose name it is.
pub open spec fn spec_bucket_of(
    members: Map<(Seq<char>, Seq<char>), MemberSnapshotV>,
    room: Seq<char>,
    name: Seq<char>,
) -> Set<Seq<char>> {
    Set::new(|u: Seq<char>| spec_user_name(members, room, u) == Some(name))
}

/// Whether some member other than `user` carries `name` in `room`.
pub open spec fn spec_other_has(
    members: Map<(Seq<char>, Seq<char>), MemberSnapshotV>,
    room: Seq<char>,
    user: Seq<char>,
    name: Seq<char>,
) -> bool {
    exists|v: Seq<char>| v != user && spec_user_name(members, room, v) == Some(name)
}

/// The buckets are exactly right for the members: every bucket holds
/// exactly the active members whose display name it is, every named active
/// member has a bucket, and no bucket is empty.
pub open spec fn spec_buckets_correct(
    buckets: Map<(Seq<char>, Seq<char>), Set<Seq<char>>>,
    members: Map<(Seq<char>, Seq<char>), MemberSnapshotV>,
) -> bool {
    &&& (forall|b: (Seq<char>, Seq<char>)|
        #![trigger buckets.contains_key(b)]
        buckets.contains_key(b) ==> buckets[b] == spec_bucket_of(members, b.0, b.1)
            && buckets[b] != Set::<Seq<char>>::empty())
    &&& (forall|k: (Seq<char>, Seq<char>)|
        #![trigger members.contains_key(k)]
        members.contains_key(k) ==> (match spec_named(members[k]) {
            Some(n) => buckets.contains_key((k.0, n)),
            None => true,
        }))
}

/// The buckets after one member event: the user leaves the bucket of the
/// name it carried (the bucket disappearing when it empties), and enters
/// the bucket of the name it now carries.
pub open spec fn spec_step_buckets(
    buckets: Map<(Seq<char>, Seq<char>), Set<Seq<char>>>,
    members: Map<(Seq<char>, Seq<char>), MemberSnapshotV>,
    room: Seq<char>,
    user: Seq<char>,
    snap: MemberSnapshotV,
) -> Map<(Seq<char>, Seq<char>), Set<Seq<char>>> {
    let removed = match spec_user_name(members, room, user) {
        Some(n) => if buckets.contains_key((room, n)) {
            if buckets[(room, n)].remove(user) == Set::<Seq<char>>::empty() {
                buckets.remove((room, n))
            } else {
                buckets.insert((room, n), buckets[(room, n)].remove(user))
            }
        } else {
            buckets
        },
        None => buckets,
    };
    match spec_named(snap) {
        Some(n) => if removed.contains_key((room, n)) {
            removed.insert((room, n), removed[(room, n)].insert(user))
        } else {
            removed.insert((room, n), Set::<Seq<char>>::empty().insert(user))
        },
        None => removed,
    }
}

/// Whether one member event is worth a change record: the member's
/// effective display name changed, or their ambiguity did.
pub open spec fn spec_step_emits(
    members: Map<(Seq<char>, Seq<char>), MemberSnapshotV>,
    room: Seq<char>,
    user: Seq<char>,
    snap: MemberSnapshotV,
) -> bool {
    let old_name = spec_user_name(members, room, user);
    let new_name = spec_named(snap);
    let old_amb = match old_name {
        Some(n) => spec_other_has(members, room, user, n),
        None => false,
    };
    let new_amb = match new_name {
        Some(n) => spec_other_has(members, room, user, n),
        None => false,
    };
    old_name != new_name || old_amb != new_amb
}

/// Whether the member is ambiguous after the event.
pub open spec fn spec_step_ambiguous(
    members: Map<(Seq<char>, Seq<char>), MemberSnapshotV>,
    room: Seq<char>,
    user: Seq<char>,
    snap: MemberSnapshotV,
) -> bool {
    match spec_named(snap) {
        Some(n) => spec_other_has(members, room, user, n),
        None => false,
    }
}

/// One member event keeps the buckets exactly right.
///
/// This is the display-name disambiguation law: starting from buckets that
/// hold exactly the active members per display name, folding in any member
/// event yields buckets that hold exactly the active members per display
/// name of the updated member map.
pub proof fn lemma_ambiguity_step_preserves(
    buckets: Map<(Seq<char>, Seq<char>), Set<Seq<char>>>,
    members: Map<(Seq<char>, Seq<char>), MemberSnapshotV>,
    room: Seq<char>,
    user: Seq<char>,
    snap: MemberSnapshotV,
)
    requires
        spec_buckets_correct(buckets, members),
    ensures
        spec_buckets_correct(
            spec_step_buckets(buckets, members, room, user, snap),
            members.insert((room, user), snap),
        ),
{
    let members2 = members.insert((room, user), snap);
    let old_name = spec_user_name(members, room, user);
    let new_name = spec_named(snap);
    let removed = match old_name {
        Some(n) => if buckets.contains_key((room, n)) {
            if buckets[(room, n)].remove(user) == Set::<Seq<char>>::empty() {
                buckets.remove((room, n))
            } else {
                buckets.insert((room, n), buckets[(room, n)].remove(user))
            }
        } else {
            buckets
        },
        None => buckets,
    };
    let stepped = spec_step_buckets(buckets, members, room, user, snap);
    // A fictitious member map in which the user carries no name: what
    // `removed` is exactly right for.
    let cleared = members.insert(
        (room, user),
        MemberSnapshotV { membership: Membership::Leave, displayname: None },
    );
    assert(spec_named(
        MemberSnapshotV { membership: Membership::Leave, displayname: None },
    ) == Option::<Seq<char>>::None);
    assert forall|u: Seq<char>|
        #![trigger spec_user_name(cleared, room, u)]
        u != user implies (spec_user_name(cleared, room, u) == spec_user_name(members, room, u)
        && spec_user_name(members2, room, u) == spec_user_name(members, room, u)) by {
        assert((room, u) != (room, user));
    }
    // `removed` is exactly right for `cleared`.
    assert forall|b: (Seq<char>, Seq<char>)|
        #![trigger removed.contains_key(b)]
        removed.contains_key(b) implies removed[b] == spec_bucket_of(cleared, b.0, b.1)
        && removed[b] != Set::<Seq<char>>::empty() by {
        assert(buckets.contains_key(b) || (old_name is Some && b == (
            room,
            old_name.unwrap(),
        )));
        if b.0 == room && old_name == Some(b.1) {
            assert(buckets.contains_key(b));
            assert(removed[b] == buckets[b].remove(user));
            assert(spec_bucket_of(cleared, b.0, b.1) =~= spec_bucket_of(
                members,
                b.0,
                b.1,
            ).remove(user));
            assert(removed[b] != Set::<Seq<char>>::empty()) by {
                if removed[b] == Set::<Seq<char>>::empty() {
                    assert(buckets[b].remove(user) == Set::<Seq<char>>::empty());
                }
            }
        } else {
            assert(removed[b] == buckets[b]);
            assert(spec_bucket_of(cleared, b.0, b.1) =~= spec_bucket_of(members, b.0, b.1)) by {
                if b.0 == room {
                    assert(spec_user_name(cleared, room, user) == Option::<Seq<char>>::None);
                    assert(spec_user_name(members, room, user) != Some(b.1));
                }
            }
        }
    }
    assert forall|k: (Seq<char>, Seq<char>)|
        #![trigger cleared.contains_key(k)]
        cleared.contains_key(k) implies (match spec_named(cleared[k]) {
        Some(n) => removed.contains_key((k.0, n)),
        None => true,
    }) by {
        if k != (room, user) {
            assert(cleared[k] == members[k]);
            if spec_named(members[k]) is Some {
                let n = spec_named(members[k]).unwrap();
                assert(buckets.contains_key((k.0, n)));
                if !removed.contains_key((k.0, n)) {
                    // the removal deleted this bucket: it emptied, yet it
                    // still holds this member
                    assert(k.0 == room && old_name == Some(n));
                    assert(buckets[(room, n)].remove(user) == Set::<Seq<char>>::empty());
                    assert(buckets[(room, n)] == spec_bucket_of(members, room, n));
                    assert(spec_user_name(members, k.0, k.1) == Some(n));
                    assert(spec_bucket_of(members, room, n).contains(k.1));
                    assert(k.1 == user);
                    assert(cleared[k] == snap || true);
                    assert(spec_named(cleared[(room, user)]) == Option::<Seq<char>>::None);
                    assert(false);
                }
            }
        }
    }
    // Folding the new name into `removed` is exactly right for `members2`.
    assert forall|b: (Seq<char>, Seq<char>)|
        #![trigger stepped.contains_key(b)]
        stepped.contains_key(b) implies stepped[b] == spec_bucket_of(members2, b.0, b.1)
        && stepped[b] != Set::<Seq<char>>::empty() by {
        if new_name is Some && b == (room, new_name.unwrap()) {
            let n = new_name.unwrap();
            assert(spec_user_name(members2, room, user) == Some(n));
            if removed.contains_key(b) {
                assert(stepped[b] == removed[b].insert(user));
                assert(spec_bucket_of(members2, room, n) =~= spec_bucket_of(
                    cleared,
                    room,
                    n,
                ).insert(user));
            } else {
                assert(stepped[b] == Set::<Seq<char>>::empty().insert(user));
                assert forall|v: Seq<char>| spec_user_name(cleared, room, v) != Some(n) by {
                    if spec_user_name(cleared, room, v) == Some(n) {
                        assert(cleared.contains_key((room, v)));
                        assert(removed.contains_key((room, n)));
                    }
                }
                assert(spec_bucket_of(members2, room, n) =~= Set::<
                    Seq<char>,
                >::empty().insert(user));
            }
            assert(stepped[b].contains(user));
        } else {
            assert(stepped.contains_key(b) ==> removed.contains_key(b));
            assert(stepped[b] == removed[b]);
            assert(spec_bucket_of(members2, b.0, b.1) =~= spec_bucket_of(cleared, b.0, b.1)) by {
                if b.0 == room {
                    assert(spec_user_name(members2, room, user) == new_name);
                    assert(spec_user_name(members2, room, user) != Some(b.1));
                    assert(spec_user_name(cleared, room, user) == Option::<Seq<char>>::None);
                }
            }
        }
    }
    assert forall|k: (Seq<char>, Seq<char>)|
        #![trigger members2.contains_key(k)]
        members2.contains_key(k) implies (match spec_named(members2[k]) {
        Some(n) => stepped.contains_key((k.0, n)),
        None => true,
    }) by {
        if k == (room, user) {
            assert(members2[k] == snap);
            if new_name is Some {
                assert(stepped.contains_key((room, new_name.unwrap())));
            }
        } else {
            assert(members2[k] == members[k]);
            assert(cleared.contains_key(k) && cleared[k] == members[k]);
            if spec_named(members[k]) is Some {
                let n = spec_named(members[k]).unwrap();
                assert(removed.contains_key((k.0, n)));
                assert(stepped.contains_key((k.0, n)));
            }
        }
    }
}

/// What the store knows of one member event, reduced to a snapshot.
pub open spec fn spec_snapshot_of(e: StateEventInputV) -> Option<MemberSnapshotV> {
    match e.parsed {
        Some(m) => match m.content {
            StateContentV::Member(mc) => Some(
                MemberSnapshotV { membership: mc.membership, displayname: mc.displayname },
            ),
            _ => None,
        },
        None => None,
    }
}

/// The changes recorded for one room, in order.
pub open spec fn spec_room_changes(
    s: Seq<(Seq<char>, AmbiguityChangeV)>,
    room: Seq<char>,
) -> Seq<AmbiguityChangeV>
    decreases s.len(),
{
    if s.len() == 0 {
        Seq::empty()
    } else if s.last().0 == room {
        spec_room_changes(s.drop_last(), room).push(s.last().1)
    } else {
        spec_room_changes(s.drop_last(), room)
    }
}

/// The changes recorded for every other room, in order.
pub open spec fn spec_other_changes(
    s: Seq<(Seq<char>, AmbiguityChangeV)>,
    room: Seq<char>,
) -> Seq<(Seq<char>, AmbiguityChangeV)>
    decreases s.len(),
{
    if s.len() == 0 {
        Seq::empty()
    } else if s.last().0 == room {
        spec_other_changes(s.drop_last(), room)
    } else {
        spec_other_changes(s.drop_last(), room).push(s.last())
    }
}

/// The per-sync display-name cache.
pub struct AmbiguityCache {
    /// Effective members per (room, user): the store's members of seeded
    /// rooms, overridden by the events folded in so far.
    pub members: KMap<(String, String), MemberSnapshot>,
    /// Display-name buckets per (room, display name).
    pub buckets: KMap<(String, String), StrSet>,
    /// The change records emitted so far, with their room.
    pub changes: Vec<(String, AmbiguityChange)>,
    /// Rooms whose members were loaded from the store.
    pub seeded: StrSet,
}

impl AmbiguityCache {
    pub open spec fn wf(&self) -> bool {
        &&& self.members.wf()
        &&& self.buckets.wf()
        &&& self.seeded.wf()
        &&& spec_buckets_correct(self.buckets@, self.members@)
    }

    pub fn new() -> (r: Self)
        ensures
            r.wf(),
            r.members@ == Map::<(Seq<char>, Seq<char>), MemberSnapshotV>::empty(),
            r.buckets@ == Map::<(Seq<char>, Seq<char>), Set<Seq<char>>>::empty(),
            r.changes@.len() == 0,
            r.seeded@ == Set::<Seq<char>>::empty(),
    {
        AmbiguityCache {
            members: KMap::new(),
            buckets: KMap::new(),
            changes: Vec::new(),
            seeded: StrSet::new(),
        }
    }

    /// Whether a member other than `user` carries `name` in `room`.
    fn other_in_bucket(&self, room: &String, name: &String, user: &String) -> (r: bool)
        requires
            self.wf(),
        ensures
            r == spec_other_has(self.members@, room@, user@, name@),
    {
        let key = (room.clone(), name.clone());
        match self.buckets.find(&key) {
            Some(i) => {
                proof {
                    KMap::<(String, String), StrSet>::lemma_at(self.buckets.entries@, i as int);
                    assert(self.buckets@[(room@, name@)] == spec_bucket_of(
                        self.members@,
                        room@,
                        name@,
                    ));
                }
                let set = &self.buckets.entries[i].1;
                let n = set.items.len();
                for j in 0..n
                    invariant
                        n == set.items@.len(),
                        set@ == spec_bucket_of(self.members@, room@, name@),
                        forall|w: int| 0 <= w < j ==> #[trigger] set.items@[w]@ == user@,
                {
                    if !set.items[j].eq(user) {
                        proof {
                            StrSet::lemma_set_contains(set.items@, set.items@[j as int]@);
                            assert(spec_user_name(self.members@, room@, set.items@[j as int]@)
                                == Some(name@));
                        }
                        return true;
                    }
                }
                proof {
                    if spec_other_has(self.members@, room@, user@, name@) {
                        let v = choose|v: Seq<char>|
                            v != user@ && spec_user_name(self.members@, room@, v) == Some(name@);
                        assert(set@.contains(v));
                        StrSet::lemma_set_contains(set.items@, v);
                    }
                }
                false
            },
            None => {
                proof {
                    KMap::<(String, String), StrSet>::lemma_contains(
                        self.buckets.entries@,
                        (room@, name@),
                    );
                    if spec_other_has(self.members@, room@, user@, name@) {
                        let v = choose|v: Seq<char>|
                            v != user@ && spec_user_name(self.members@, room@, v) == Some(name@);
                        assert(self.members@.contains_key((room@, v)));
                    }
                }
                false
            },
        }
    }

    /// Fold one member snapshot into the buckets and the member map,
    /// recording no change.
    fn apply_member(&mut self, room: &String, user: &String, snap: MemberSnapshot)
        requires
            old(self).wf(),
        ensures
            final(self).wf(),
            final(self).members@ == old(self).members@.insert(
                (room@, user@),
                snap.deep_view(),
            ),
            final(self).buckets@ == spec_step_buckets(
                old(self).buckets@,
                old(self).members@,
                room@,
                user@,
                snap.deep_view(),
            ),
            final(self).changes == old(self).changes,
            final(self).seeded == old(self).seeded,
    {
        let ghost snap_v = snap.deep_view();
        let key = (room.clone(), user.clone());
        // The name the user leaves behind.
        let old_name: Option<String> = match self.members.get(&key) {
            Some(s) => if s.membership.is_active() {
                s.displayname.dup()
            } else {
                None
            },
            None => None,
        };
        proof {
            assert(crate::util::opt_str_view(old_name) == spec_user_name(
                self.members@,
                room@,
                user@,
            ));
        }
        if let Some(n) = &old_name {
            let bkey = (room.clone(), n.clone());
            match self.buckets.find(&bkey) {
                Some(i) => {
                    proof {
                        KMap::<(String, String), StrSet>::lemma_at(
                            self.buckets.entries@,
                            i as int,
                        );
                    }
                    let mut set = self.buckets.entries[i].1.dup_set();
                    set.remove_all(user);
                    if set.is_empty() {
                        self.buckets.remove(&bkey);
                    } else {
                        self.buckets.insert(bkey, set);
                    }
                },
                None => {
                    proof {
                        KMap::<(String, String), StrSet>::lemma_contains(
                            self.buckets.entries@,
                            (room@, n@),
                        );
                    }
                },
            }
        }
        // The name the user takes up.
        let new_name: Option<String> = if snap.membership.is_active() {
            snap.displayname.dup()
        } else {
            None
        };
        proof {
            assert(crate::util::opt_str_view(new_name) == spec_named(snap_v));
        }
        if let Some(n) = &new_name {
            let bkey = (room.clone(), n.clone());
            match self.buckets.find(&bkey) {
                Some(i) => {
                    proof {
                        KMap::<(String, String), StrSet>::lemma_at(
                            self.buckets.entries@,
                            i as int,
                        );
                    }
                    let mut set = self.buckets.entries[i].1.dup_set();
                    set.insert_any(user.clone());
                    self.buckets.insert(bkey, set);
                },
                None => {
                    proof {
                        KMap::<(String, String), StrSet>::lemma_contains(
                            self.buckets.entries@,
                            (room@, n@),
                        );
                    }
                    let mut set = StrSet::new();
                    set.insert_any(user.clone());
                    self.buckets.insert(bkey, set);
                },
            }
        }
        proof {
            assert(self.buckets@ =~= spec_step_buckets(
                old(self).buckets@,
                old(self).members@,
                room@,
                user@,
                snap_v,
            ));
        }
        self.members.insert(key, snap);
        proof {
            lemma_ambiguity_step_preserves(
                old(self).buckets@,
                old(self).members@,
                room@,
                user@,
                snap_v,
            );
        }
    }

    /// Fold one member event in, recording a change when the member's
    /// effective display name or ambiguity changed.
    pub fn handle_member(&mut self, room: &String, user: &String, snap: MemberSnapshot)
        requires
            old(self).wf(),
        ensures
            final(self).wf(),
            final(self).members@ == old(self).members@.insert(
                (room@, user@),
                snap.deep_view(),
            ),
            final(self).buckets@ == spec_step_buckets(
                old(self).buckets@,
                old(self).members@,
                room@,
                user@,
                snap.deep_view(),
            ),
            final(self).changes.deep_view() == (if spec_step_emits(
                old(self).members@,
                room@,
                user@,
                snap.deep_view(),
            ) {
                old(self).changes.deep_view().push(
                    (
                        room@,
                        AmbiguityChangeV {
                            user_id: user@,
                            ambiguous: spec_step_ambiguous(
                                old(self).members@,
                                room@,
                                user@,
                                snap.deep_view(),
                            ),
                        },
                    ),
                )
            } else {
                old(self).changes.deep_view()
            }),
            final(self).seeded == old(self).seeded,
    {
        let ghost snap_v = snap.deep_view();
        let key = (room.clone(), user.clone());
        let old_name: Option<String> = match self.members.get(&key) {
            Some(s) => if s.membership.is_active() {
                s.displayname.dup()
            } else {
                None
            },
            None => None,
        };
        let new_name: Option<String> = if snap.membership.is_active() {
            snap.displayname.dup()
        } else {
            None
        };
        proof {
            assert(crate::util::opt_str_view(old_name) == spec_user_name(
                self.members@,
                room@,
                user@,
            ));
            assert(crate::util::opt_str_view(new_name) == spec_named(snap_v));
        }
        let old_amb = match &old_name {
            Some(n) => self.other_in_bucket(room, n, user),
            None => false,
        };
        let new_amb = match &new_name {
            Some(n) => self.other_in_bucket(room, n, user),
            None => false,
        };
        let emits = !crate::util::opt_str_eq(&old_name, &new_name) || old_amb != new_amb;
        proof {
            assert(emits == spec_step_emits(self.members@, room@, user@, snap_v));
            assert(new_amb == spec_step_ambiguous(self.members@, room@, user@, snap_v));
        }
        self.apply_member(room, user, snap);
        if emits {
            let ghost pre = self.changes.deep_view();
            self.changes.push(
                (room.clone(), AmbiguityChange { user_id: user.clone(), ambiguous: new_amb }),
            );
            proof {
                assert(self.changes.deep_view() =~= pre.push(
                    (room@, AmbiguityChangeV { user_id: user@, ambiguous: new_amb }),
                ));
            }
        }
    }

    /// Load a room's members from the store, once per room; later events of
    /// the batch override what was loaded.
    /// Whether the store holds a parsed member snapshot for (room, user).
    pub open spec fn spec_store_has_snapshot(
        store: crate::store::StateStoreV,
        room: Seq<char>,
        user: Seq<char>,
    ) -> bool {
        &&& store.state.contains_key((room, "m.room.member"@, user))
        &&& spec_snapshot_of(store.state[(room, "m.room.member"@, user)]) is Some
    }

    /// Load a room's members from the store, once per room; later events of
    /// the batch override what was loaded.
    pub fn seed_room(&mut self, store: &StateStore, room_id: &String)
        requires
            old(self).wf(),
            store.wf(),
        ensures
            final(self).wf(),
            final(self).changes == old(self).changes,
            final(self).seeded@ == old(self).seeded@.insert(room_id@),
            // a room seeds only once
            old(self).seeded@.contains(room_id@) ==> final(self).members@ == old(self).members@
                && final(self).buckets@ == old(self).buckets@,
            // a fresh room's member map takes every snapshot the store holds
            !old(self).seeded@.contains(room_id@) ==> (forall|u: Seq<char>|
                #![trigger Self::spec_store_has_snapshot(store@, room_id@, u)]
                Self::spec_store_has_snapshot(store@, room_id@, u) ==> final(self).members@.contains_key((room_id@, u)) && Some(final(self).members@[(room_id@, u)])
                    == spec_snapshot_of(store@.state[(room_id@, "m.room.member"@, u)])),
            // and touches nothing else
            !old(self).seeded@.contains(room_id@) ==> (forall|k: (Seq<char>, Seq<char>)|
                #![trigger final(self).members@.contains_key(k)]
                !(k.0 == room_id@ && Self::spec_store_has_snapshot(store@, room_id@, k.1)) ==> (
                final(self).members@.contains_key(k) == old(self).members@.contains_key(k) && (old(self).members@.contains_key(k) ==> final(self).members@[k] == old(self).members@[k]))),
    {
        if self.seeded.contains(room_id) {
            self.seeded.insert(room_id.clone());
            return;
        }
        let snapshots = store.room_member_snapshots(room_id);
        let n = snapshots.len();
        for i in 0..n
            invariant
                n == snapshots@.len(),
                self.wf(),
                store.wf(),
                self.changes == old(self).changes,
                self.seeded == old(self).seeded,
                forall|w: int|
                    #![trigger snapshots@[w]]
                    0 <= w < n ==> store@.state.contains_key(
                        (room_id@, "m.room.member"@, snapshots@[w].0@),
                    ) && spec_snapshot_of(
                        store@.state[(room_id@, "m.room.member"@, snapshots@[w].0@)],
                    ) == Some(snapshots@[w].1.deep_view()),
                forall|w1: int, w2: int|
                    0 <= w1 < w2 < n ==> snapshots@[w1].0@ != snapshots@[w2].0@,
                forall|w: int|
                    #![trigger snapshots@[w]]
                    0 <= w < i ==> self.members@.contains_key((room_id@, snapshots@[w].0@))
                        && self.members@[(room_id@, snapshots@[w].0@)]
                        == snapshots@[w].1.deep_view(),
                forall|k: (Seq<char>, Seq<char>)|
                    #![trigger self.members@.contains_key(k)]
                    (self.members@.contains_key(k) != old(self).members@.contains_key(k) || (old(self).members@.contains_key(k) && self.members@[k] != old(self).members@[k]))
                        ==> exists|w: int|
                        0 <= w < i && k == (room_id@, (#[trigger] snapshots@[w]).0@),
        {
            let ghost pre_members = self.members@;
            let user = snapshots[i].0.clone();
            let snap = snapshots[i].1.dup();
            self.apply_member(room_id, &user, snap);
            proof {
                assert(self.members@ == pre_members.insert(
                    (room_id@, user@),
                    snap.deep_view(),
                ));
                assert forall|w: int|
                    #![trigger snapshots@[w]]
                    0 <= w < i + 1 implies self.members@.contains_key(
                    (room_id@, snapshots@[w].0@),
                ) && self.members@[(room_id@, snapshots@[w].0@)]
                    == snapshots@[w].1.deep_view() by {
                    if w < i {
                        assert(snapshots@[w].0@ != snapshots@[i as int].0@);
                    }
                }
                assert forall|k: (Seq<char>, Seq<char>)|
                    #![trigger self.members@.contains_key(k)]
                    (self.members@.contains_key(k) != old(self).members@.contains_key(k) || (old(self).members@.contains_key(k) && self.members@[k] != old(self).members@[k]))
                        implies exists|w: int|
                    0 <= w < i + 1 && k == (room_id@, (#[trigger] snapshots@[w]).0@) by {
                    if k != (room_id@, user@) {
                        assert(self.members@.contains_key(k) == pre_members.contains_key(k));
                        if pre_members.contains_key(k) != old(self).members@.contains_key(k) || (
                        old(self).members@.contains_key(k) && pre_members[k] != old(self).members@[k]) {
                            let w = choose|w: int|
                                0 <= w < i && k == (room_id@, (#[trigger] snapshots@[w]).0@);
                            assert(k == (room_id@, snapshots@[w].0@));
                        }
                    } else {
                        assert(k == (room_id@, snapshots@[i as int].0@));
                    }
                }
            }
        }
        self.seeded.insert(room_id.clone());
        proof {
            assert forall|u: Seq<char>|
                #![trigger Self::spec_store_has_snapshot(store@, room_id@, u)]
                Self::spec_store_has_snapshot(store@, room_id@, u) implies
                self.members@.contains_key((room_id@, u)) && Some(
                self.members@[(room_id@, u)],
            ) == spec_snapshot_of(store@.state[(room_id@, "m.room.member"@, u)]) by {
                let w = choose|w: int|
                    0 <= w < snapshots@.len() && (#[trigger] snapshots@[w]).0@ == u;
                assert(self.members@.contains_key((room_id@, snapshots@[w].0@)));
            }
            assert forall|k: (Seq<char>, Seq<char>)|
                #![trigger self.members@.contains_key(k)]
                !(k.0 == room_id@ && Self::spec_store_has_snapshot(store@, room_id@, k.1))
                    implies (self.members@.contains_key(k) == old(self).members@.contains_key(k)
                && (old(self).members@.contains_key(k) ==> self.members@[k] == old(self).members@[k])) by {
                if self.members@.contains_key(k) != old(self).members@.contains_key(k) || (old(self).members@.contains_key(k) && self.members@[k] != old(self).members@[k]) {
                    let w = choose|w: int|
                        0 <= w < snapshots@.len() && k == (
                            room_id@,
                            (#[trigger] snapshots@[w]).0@,
                        );
                    assert(store@.state.contains_key((room_id@, "m.room.member"@, k.1)));
                    assert(Self::spec_store_has_snapshot(store@, room_id@, k.1));
                }
            }
        }
    }

    /// Hand out and forget the changes recorded for one room.
    pub fn take_changes_for_room(&mut self, room_id: &String) -> (r: Vec<AmbiguityChange>)
        requires
            old(self).wf(),
        ensures
            final(self).wf(),
            r.deep_view() == spec_room_changes(old(self).changes.deep_view(), room_id@),
            final(self).changes.deep_view() == spec_other_changes(
                old(self).changes.deep_view(),
                room_id@,
            ),
            final(self).members@ == old(self).members@,
            final(self).buckets@ == old(self).buckets@,
            final(self).seeded == old(self).seeded,
    {
        let mut taken: Vec<AmbiguityChange> = Vec::new();
        let mut kept: Vec<(String, AmbiguityChange)> = Vec::new();
        let n = self.changes.len();
        proof {
            assert(self.changes.deep_view().take(0) =~= Seq::<
                (Seq<char>, AmbiguityChangeV),
            >::empty());
        }
        for i in 0..n
            invariant
                n == self.changes@.len(),
                taken.deep_view() == spec_room_changes(
                    self.changes.deep_view().take(i as int),
                    room_id@,
                ),
                kept.deep_view() == spec_other_changes(
                    self.changes.deep_view().take(i as int),
                    room_id@,
                ),
        {
            let ghost pre_t = taken.deep_view();
            let ghost pre_k = kept.deep_view();
            if self.changes[i].0.eq(room_id) {
                taken.push(self.changes[i].1.dup());
            } else {
                kept.push(self.changes[i].dup());
            }
            proof {
                let ghost s = self.changes.deep_view();
                assert(s.take(i as int + 1).drop_last() =~= s.take(i as int));
                assert(s.take(i as int + 1).last() == s[i as int]);
                assert(taken.deep_view() =~= (if s[i as int].0 == room_id@ {
                    pre_t.push(s[i as int].1)
                } else {
                    pre_t
                }));
                assert(kept.deep_view() =~= (if s[i as int].0 == room_id@ {
                    pre_k
                } else {
                    pre_k.push(s[i as int])
                }));
            }
        }
        proof {
            assert(self.changes.deep_view().take(n as int) =~= self.changes.deep_view());
        }
        self.changes = kept;
        taken
    }
}

} // verus!
