//! The in-memory state store the engine owns: rooms and the persisted data a
//! committed change set produces.
//!
//! `save_changes` is the single commit point: it folds a whole change set in,
//! atomically as far as callers can observe, deletions of profiles first.

use vstd::prelude::*;

use crate::changes::StateChanges;
use crate::events::{
    AccountDataEvent, AccountDataEventV, MemberContent, MemberContentV, Membership,
    RoomAccountDataEvent, RoomAccountDataEventV, StateContent, StateContentV, StateEventInput,
    StateEventInputV,
};
use crate::kmap::{KMap, StrSet};
use crate::room::{Room, RoomInfo, RoomState, RoomV};
use crate::util::DupView;

verus! {

/// Which memberships a member query asks for.
#[derive(Clone, Copy, Debug, PartialEq, Eq, Structural)]
pub struct MembershipsFilter {
    pub join: bool,
    pub invite: bool,
    pub leave: bool,
    pub ban: bool,
    pub knock: bool,
}

impl MembershipsFilter {
    /// Joined or invited members.
    pub fn active() -> (r: Self)
        ensures
            r == (MembershipsFilter {
                join: true,
                invite: true,
                leave: false,
                ban: false,
                knock: false,
            }),
    {
        MembershipsFilter { join: true, invite: true, leave: false, ban: false, knock: false }
    }

    /// Joined members only.
    pub fn joined() -> (r: Self)
        ensures
            r == (MembershipsFilter {
                join: true,
                invite: false,
                leave: false,
                ban: false,
                knock: false,
            }),
    {
        MembershipsFilter { join: true, invite: false, leave: false, ban: false, knock: false }
    }

    pub open spec fn spec_matches(self, m: Membership) -> bool {
        match m {
            Membership::Join => self.join,
            Membership::Invite => self.invite,
            Membership::Leave => self.leave,
            Membership::Ban => self.ban,
            Membership::Knock => self.knock,
        }
    }

    #[verifier::when_used_as_spec(spec_matches)]
    pub fn matches(self, m: Membership) -> (r: bool)
        ensures
            r == self.spec_matches(m),
    {
        match m {
            Membership::Join => self.join,
            Membership::Invite => self.invite,
            Membership::Leave => self.leave,
            Membership::Ban => self.ban,
            Membership::Knock => self.knock,
        }
    }
}

/// Whether a stored state event is a member event whose membership the
/// filter accepts.
pub open spec fn spec_member_matches(e: StateEventInputV, f: MembershipsFilter) -> bool {
    match e.parsed {
        Some(m) => match m.content {
            StateContentV::Member(mc) => f.spec_matches(mc.membership),
            _ => false,
        },
        None => false,
    }
}

/// The engine's state store.
pub struct StateStore {
    pub rooms: KMap<String, Room>,
    pub state: KMap<(String, String, String), StateEventInput>,
    pub stripped_state: KMap<(String, String, String), StateEventInput>,
    pub redactions: KMap<(String, String), String>,
    pub account_data: KMap<String, AccountDataEvent>,
    pub room_account_data: KMap<(String, String), RoomAccountDataEvent>,
    pub presence: KMap<String, String>,
    pub receipts: KMap<String, String>,
    pub ambiguity_maps: KMap<(String, String), StrSet>,
    pub profiles: KMap<(String, String), MemberContent>,
    pub kv: KMap<String, String>,
    pub sync_token: Option<String>,
}

/// The mathematical shadow of the store.
#[verifier::ext_equal]
pub struct StateStoreV {
    pub rooms: Map<Seq<char>, RoomV>,
    pub state: Map<(Seq<char>, Seq<char>, Seq<char>), StateEventInputV>,
    pub stripped_state: Map<(Seq<char>, Seq<char>, Seq<char>), StateEventInputV>,
    pub redactions: Map<(Seq<char>, Seq<char>), Seq<char>>,
    pub account_data: Map<Seq<char>, AccountDataEventV>,
    pub room_account_data: Map<(Seq<char>, Seq<char>), RoomAccountDataEventV>,
    pub presence: Map<Seq<char>, Seq<char>>,
    pub receipts: Map<Seq<char>, Seq<char>>,
    pub ambiguity_maps: Map<(Seq<char>, Seq<char>), Set<Seq<char>>>,
    pub profiles: Map<(Seq<char>, Seq<char>), MemberContentV>,
    pub kv: Map<Seq<char>, Seq<char>>,
    pub sync_token: Option<Seq<char>>,
}

impl View for StateStore {
    type V = StateStoreV;

    open spec fn view(&self) -> StateStoreV {
        StateStoreV {
            rooms: self.rooms@,
            state: self.state@,
            stripped_state: self.stripped_state@,
            redactions: self.redactions@,
            account_data: self.account_data@,
            room_account_data: self.room_account_data@,
            presence: self.presence@,
            receipts: self.receipts@,
            ambiguity_maps: self.ambiguity_maps@,
            profiles: self.profiles@,
            kv: self.kv@,
            sync_token: self.sync_token.deep_view(),
        }
    }
}

/// Whether some string of `v` has the view `u`.
pub open spec fn spec_contains_str(v: Seq<String>, u: Seq<char>) -> bool {
    exists|w: int| 0 <= w < v.len() && v[w]@ == u
}

/// The rooms map after folding a sequence of room summaries into it: each
/// summary lands under its key, keeping the stored encrypted candidates of
/// an existing room.
pub open spec fn spec_rooms_folded(
    rooms: Map<Seq<char>, RoomV>,
    entries: Seq<(String, RoomInfo)>,
) -> Map<Seq<char>, RoomV>
    decreases entries.len(),
{
    if entries.len() == 0 {
        rooms
    } else {
        let prev = spec_rooms_folded(rooms, entries.drop_last());
        prev.insert(
            entries.last().0@,
            RoomV {
                info: entries.last().1.deep_view(),
                latest_encrypted_events: if prev.contains_key(entries.last().0@) {
                    prev[entries.last().0@].latest_encrypted_events
                } else {
                    Seq::empty()
                },
            },
        )
    }
}

pub proof fn lemma_rooms_folded_pointwise(
    rooms: Map<Seq<char>, RoomV>,
    entries: Seq<(String, RoomInfo)>,
)
    requires
        KMap::<String, RoomInfo>::key_seq_unique(entries),
    ensures
        forall|k: Seq<char>|
            #![trigger KMap::<String, RoomInfo>::map_of(entries).contains_key(k)]
            KMap::<String, RoomInfo>::map_of(entries).contains_key(k) ==> spec_rooms_folded(
                rooms,
                entries,
            ).contains_key(k) && spec_rooms_folded(rooms, entries)[k].info == KMap::<
                String,
                RoomInfo,
            >::map_of(entries)[k] && spec_rooms_folded(rooms, entries)[k].latest_encrypted_events
                == (if rooms.contains_key(k) {
                rooms[k].latest_encrypted_events
            } else {
                Seq::<Seq<char>>::empty()
            }),
        forall|k: Seq<char>|
            #![trigger KMap::<String, RoomInfo>::map_of(entries).contains_key(k)]
            !KMap::<String, RoomInfo>::map_of(entries).contains_key(k) ==> (spec_rooms_folded(
                rooms,
                entries,
            ).contains_key(k) == rooms.contains_key(k) && (rooms.contains_key(k)
                ==> spec_rooms_folded(rooms, entries)[k] == rooms[k])),
    decreases entries.len(),
{
    if entries.len() > 0 {
        let short = entries.drop_last();
        lemma_rooms_folded_pointwise(rooms, short);
        KMap::<String, RoomInfo>::lemma_contains(short, entries.last().0@);
        assert forall|k: Seq<char>| #![auto]
            KMap::<String, RoomInfo>::map_of(entries).contains_key(k) implies spec_rooms_folded(
            rooms,
            entries,
        ).contains_key(k) && spec_rooms_folded(rooms, entries)[k].info == KMap::<
            String,
            RoomInfo,
        >::map_of(entries)[k] && spec_rooms_folded(rooms, entries)[k].latest_encrypted_events == (
        if rooms.contains_key(k) {
            rooms[k].latest_encrypted_events
        } else {
            Seq::<Seq<char>>::empty()
        }) by {
            if k == entries.last().0@ {
                assert(!KMap::<String, RoomInfo>::map_of(short).contains_key(k));
                assert(spec_rooms_folded(rooms, short).contains_key(k) == rooms.contains_key(k));
                assert(rooms.contains_key(k) ==> spec_rooms_folded(rooms, short)[k] == rooms[k]);
            } else {
                KMap::<String, RoomInfo>::lemma_contains(entries, k);
                KMap::<String, RoomInfo>::lemma_contains(short, k);
                if KMap::<String, RoomInfo>::map_of(entries).contains_key(k) {
                    let w = choose|w: int|
                        0 <= w < entries.len() && entries[w].0@ == k;
                    assert(short[w] == entries[w]);
                    assert(KMap::<String, RoomInfo>::map_of(short).contains_key(k));
                    assert(spec_rooms_folded(rooms, short).contains_key(k)
                        && spec_rooms_folded(rooms, short)[k].info == KMap::<
                        String,
                        RoomInfo,
                    >::map_of(short)[k] && spec_rooms_folded(
                        rooms,
                        short,
                    )[k].latest_encrypted_events == (if rooms.contains_key(k) {
                        rooms[k].latest_encrypted_events
                    } else {
                        Seq::<Seq<char>>::empty()
                    }));
                }
            }
        }
        assert forall|k: Seq<char>| #![auto]
            !KMap::<String, RoomInfo>::map_of(entries).contains_key(k) implies (
        spec_rooms_folded(rooms, entries).contains_key(k) == rooms.contains_key(k) && (
        rooms.contains_key(k) ==> spec_rooms_folded(rooms, entries)[k] == rooms[k])) by {
            assert(KMap::<String, RoomInfo>::map_of(entries).contains_key(entries.last().0@));
            assert(k != entries.last().0@);
            assert(!KMap::<String, RoomInfo>::map_of(short).contains_key(k));
            assert(spec_rooms_folded(rooms, short).contains_key(k) == rooms.contains_key(k));
            assert(rooms.contains_key(k) ==> spec_rooms_folded(rooms, short)[k] == rooms[k]);
        }
    }
}

/// Whether a (room, user) pair occurs in a deletion list.
pub open spec fn spec_pair_listed(l: Seq<(Seq<char>, Seq<char>)>, k: (Seq<char>, Seq<char>)) -> bool {
    exists|i: int| 0 <= i < l.len() && l[i] == k
}

impl StateStore {
    pub open spec fn wf(&self) -> bool {
        &&& self.rooms.wf()
        &&& self.state.wf()
        &&& self.stripped_state.wf()
        &&& self.redactions.wf()
        &&& self.account_data.wf()
        &&& self.room_account_data.wf()
        &&& self.presence.wf()
        &&& self.receipts.wf()
        &&& self.ambiguity_maps.wf()
        &&& self.profiles.wf()
        &&& self.kv.wf()
    }

    pub fn new() -> (r: Self)
        ensures
            r.wf(),
            r@.rooms == Map::<Seq<char>, RoomV>::empty(),
            r@.state == Map::<(Seq<char>, Seq<char>, Seq<char>), StateEventInputV>::empty(),
            r@.stripped_state == Map::<
                (Seq<char>, Seq<char>, Seq<char>),
                StateEventInputV,
            >::empty(),
            r@.account_data == Map::<Seq<char>, AccountDataEventV>::empty(),
            r@.room_account_data == Map::<(Seq<char>, Seq<char>), RoomAccountDataEventV>::empty(),
            r@.profiles == Map::<(Seq<char>, Seq<char>), MemberContentV>::empty(),
            r@.kv == Map::<Seq<char>, Seq<char>>::empty(),
            r@.sync_token == Option::<Seq<char>>::None,
    {
        StateStore {
            rooms: KMap::new(),
            state: KMap::new(),
            stripped_state: KMap::new(),
            redactions: KMap::new(),
            account_data: KMap::new(),
            room_account_data: KMap::new(),
            presence: KMap::new(),
            receipts: KMap::new(),
            ambiguity_maps: KMap::new(),
            profiles: KMap::new(),
            kv: KMap::new(),
            sync_token: None,
        }
    }

    /// The room with this id, if the store knows it.
    pub fn room(&self, room_id: &String) -> (r: Option<&Room>)
        requires
            self.wf(),
        ensures
            match r {
                Some(room) => self@.rooms.contains_key(room_id@) && room.deep_view()
                    == self@.rooms[room_id@],
                None => !self@.rooms.contains_key(room_id@),
            },
    {
        self.rooms.get(room_id)
    }

    /// Ensure a room exists, creating it in the given lifecycle state; an
    /// existing room is left untouched.
    pub fn get_or_create_room(&mut self, room_id: &String, state: RoomState)
        requires
            old(self).wf(),
        ensures
            final(self).wf(),
            final(self)@ == (StateStoreV {
                rooms: if old(self)@.rooms.contains_key(room_id@) {
                    old(self)@.rooms
                } else {
                    old(self)@.rooms.insert(
                        room_id@,
                        RoomV {
                            info: RoomInfo::spec_new(room_id@, state),
                            latest_encrypted_events: Seq::empty(),
                        },
                    )
                },
                ..old(self)@
            }),
    {
        if self.rooms.contains(room_id) {
            proof {
                assert(self@ =~= (StateStoreV { rooms: self@.rooms, ..self@ }));
            }
            return;
        }
        let info = RoomInfo::new(room_id.clone(), state);
        let room = Room { info, latest_encrypted_events: Vec::new() };
        proof {
            assert(room.latest_encrypted_events.deep_view() =~= Seq::<Seq<char>>::empty());
        }
        self.rooms.insert(room_id.clone(), room);
    }

    /// Replace a room's summary, keeping its stored encrypted candidates;
    /// an unknown room is created around the summary.
    pub fn put_room_info(&mut self, info: RoomInfo)
        requires
            old(self).wf(),
        ensures
            final(self).wf(),
            final(self)@ == (StateStoreV {
                rooms: old(self)@.rooms.insert(
                    info.room_id@,
                    RoomV {
                        info: info.deep_view(),
                        latest_encrypted_events: if old(self)@.rooms.contains_key(info.room_id@) {
                            old(self)@.rooms[info.room_id@].latest_encrypted_events
                        } else {
                            Seq::empty()
                        },
                    },
                ),
                ..old(self)@
            }),
    {
        let key = info.room_id.clone();
        match self.rooms.find(&key) {
            Some(i) => {
                proof {
                    KMap::<String, Room>::lemma_at(self.rooms.entries@, i as int);
                }
                let latest = self.rooms.entries[i].1.latest_encrypted_events.dup();
                self.rooms.insert(key, Room { info, latest_encrypted_events: latest });
            },
            None => {
                proof {
                    KMap::<String, Room>::lemma_contains(self.rooms.entries@, key@);
                }
                let room = Room { info, latest_encrypted_events: Vec::new() };
                proof {
                    assert(room.latest_encrypted_events.deep_view() =~= Seq::<Seq<char>>::empty());
                }
                self.rooms.insert(key, room);
            },
        }
    }

    /// Replace a room's summary under the given key, keeping the room's
    /// stored encrypted candidates.
    pub fn put_room_info_keyed(&mut self, key: &String, info: RoomInfo)
        requires
            old(self).wf(),
        ensures
            final(self).wf(),
            final(self)@ == (StateStoreV {
                rooms: old(self)@.rooms.insert(
                    key@,
                    RoomV {
                        info: info.deep_view(),
                        latest_encrypted_events: if old(self)@.rooms.contains_key(key@) {
                            old(self)@.rooms[key@].latest_encrypted_events
                        } else {
                            Seq::empty()
                        },
                    },
                ),
                ..old(self)@
            }),
    {
        match self.rooms.find(key) {
            Some(i) => {
                proof {
                    KMap::<String, Room>::lemma_at(self.rooms.entries@, i as int);
                }
                let latest = self.rooms.entries[i].1.latest_encrypted_events.dup();
                self.rooms.insert(key.dup(), Room { info, latest_encrypted_events: latest });
            },
            None => {
                proof {
                    KMap::<String, Room>::lemma_contains(self.rooms.entries@, key@);
                }
                let room = Room { info, latest_encrypted_events: Vec::new() };
                proof {
                    assert(room.latest_encrypted_events.deep_view() =~= Seq::<Seq<char>>::empty());
                }
                self.rooms.insert(key.dup(), room);
            },
        }
    }

    /// Replace a room's stored encrypted candidates, leaving its summary.
    pub fn set_latest_encrypted_keyed(&mut self, key: &String, list: Vec<String>)
        requires
            old(self).wf(),
        ensures
            final(self).wf(),
            final(self)@ == (StateStoreV {
                rooms: if old(self)@.rooms.contains_key(key@) {
                    old(self)@.rooms.insert(
                        key@,
                        RoomV {
                            info: old(self)@.rooms[key@].info,
                            latest_encrypted_events: list.deep_view(),
                        },
                    )
                } else {
                    old(self)@.rooms
                },
                ..old(self)@
            }),
    {
        match self.rooms.find(key) {
            Some(i) => {
                proof {
                    KMap::<String, Room>::lemma_at(self.rooms.entries@, i as int);
                }
                let info = self.rooms.entries[i].1.info.dup();
                self.rooms.insert(key.dup(), Room { info, latest_encrypted_events: list });
            },
            None => {
                proof {
                    KMap::<String, Room>::lemma_contains(self.rooms.entries@, key@);
                    assert(self@ =~= (StateStoreV { rooms: self@.rooms, ..self@ }));
                }
            },
        }
    }

    /// Replace a room wholesale.
    pub fn put_room(&mut self, room: Room)
        requires
            old(self).wf(),
        ensures
            final(self).wf(),
            final(self)@ == (StateStoreV {
                rooms: old(self)@.rooms.insert(room.info.room_id@, room.deep_view()),
                ..old(self)@
            }),
    {
        let key = room.info.room_id.clone();
        self.rooms.insert(key, room);
    }

    /// Commit a change set: profile deletions first, then every addition,
    /// the change set winning over stored data.
    pub fn save_changes(&mut self, changes: &StateChanges)
        requires
            old(self).wf(),
            changes.wf(),
        ensures
            final(self).wf(),
            final(self)@.state == old(self)@.state.union_prefer_right(changes@.state),
            final(self)@.stripped_state == old(self)@.stripped_state.union_prefer_right(
                changes@.stripped_state,
            ),
            final(self)@.redactions == old(self)@.redactions.union_prefer_right(
                changes@.redactions,
            ),
            final(self)@.account_data == old(self)@.account_data.union_prefer_right(
                changes@.account_data,
            ),
            final(self)@.room_account_data == old(self)@.room_account_data.union_prefer_right(
                changes@.room_account_data,
            ),
            final(self)@.presence == old(self)@.presence.union_prefer_right(changes@.presence),
            final(self)@.receipts == old(self)@.receipts.union_prefer_right(changes@.receipts),
            final(self)@.ambiguity_maps == old(self)@.ambiguity_maps.union_prefer_right(
                changes@.ambiguity_maps,
            ),
            final(self)@.kv == old(self)@.kv,
            final(self)@.sync_token == (match changes@.sync_token {
                Some(t) => Some(t),
                None => old(self)@.sync_token,
            }),
            // profiles: additions win; listed deletions without an addition
            // are gone; everything else is untouched
            forall|k: (Seq<char>, Seq<char>)|
                #![auto]
                changes@.profiles.contains_key(k) ==> final(self)@.profiles.contains_key(k)
                    && final(self)@.profiles[k] == changes@.profiles[k],
            forall|k: (Seq<char>, Seq<char>)|
                #![trigger spec_pair_listed(changes@.profiles_to_delete, k)]
                !changes@.profiles.contains_key(k) && spec_pair_listed(
                    changes@.profiles_to_delete,
                    k,
                ) ==> !final(self)@.profiles.contains_key(k),
            forall|k: (Seq<char>, Seq<char>)|
                #![trigger spec_pair_listed(changes@.profiles_to_delete, k)]
                !changes@.profiles.contains_key(k) && !spec_pair_listed(
                    changes@.profiles_to_delete,
                    k,
                ) ==> (final(self)@.profiles.contains_key(k) == old(self)@.profiles.contains_key(k)
                    && (old(self)@.profiles.contains_key(k) ==> final(self)@.profiles[k] == old(self)@.profiles[k])),
            // rooms: each summary of the change set lands on its room,
            // keeping the room's stored encrypted candidates
            forall|k: Seq<char>|
                #![auto]
                changes@.room_infos.contains_key(k) ==> final(self)@.rooms.contains_key(k)
                    && final(self)@.rooms[k].info == changes@.room_infos[k]
                    && final(self)@.rooms[k].latest_encrypted_events == (if old(self)@.rooms.contains_key(k) {
                    old(self)@.rooms[k].latest_encrypted_events
                } else {
                    Seq::<Seq<char>>::empty()
                }),
            forall|k: Seq<char>|
                #![auto]
                !changes@.room_infos.contains_key(k) ==> (final(self)@.rooms.contains_key(k) == old(self)@.rooms.contains_key(k) && (old(self)@.rooms.contains_key(k) ==> final(self)@.rooms[k] == old(self)@.rooms[k])),
    {
        // Deletions of profiles come first, so that a profile added in the
        // same change set survives.
        let dn = changes.profiles_to_delete.len();
        proof {
            assert(changes@.profiles_to_delete.take(0) =~= Seq::<(Seq<char>, Seq<char>)>::empty());
        }
        let mut i: usize = 0;
        while i < dn
            invariant
                i <= dn,
                dn == changes.profiles_to_delete@.len(),
                self.wf(),
                forall|k: (Seq<char>, Seq<char>)|
                    #![trigger spec_pair_listed(changes@.profiles_to_delete.take(i as int), k)]
                    spec_pair_listed(changes@.profiles_to_delete.take(i as int), k)
                        ==> !self@.profiles.contains_key(k),
                forall|k: (Seq<char>, Seq<char>)|
                    #![trigger spec_pair_listed(changes@.profiles_to_delete.take(i as int), k)]
                    !spec_pair_listed(changes@.profiles_to_delete.take(i as int), k) ==> (
                    self@.profiles.contains_key(k) == old(self)@.profiles.contains_key(k) && (old(self)@.profiles.contains_key(k) ==> self@.profiles[k] == old(self)@.profiles[k])),
                self@.rooms == old(self)@.rooms,
                self@.state == old(self)@.state,
                self@.stripped_state == old(self)@.stripped_state,
                self@.redactions == old(self)@.redactions,
                self@.account_data == old(self)@.account_data,
                self@.room_account_data == old(self)@.room_account_data,
                self@.presence == old(self)@.presence,
                self@.receipts == old(self)@.receipts,
                self@.ambiguity_maps == old(self)@.ambiguity_maps,
                self@.kv == old(self)@.kv,
                self@.sync_token == old(self)@.sync_token,
            decreases dn - i,
        {
            let key = changes.profiles_to_delete[i].dup();
            proof {
                assert(key@ == changes@.profiles_to_delete[i as int]);
            }
            self.profiles.remove(&key);
            proof {
                let ghost taken = changes@.profiles_to_delete.take(i + 1);
                assert forall|k: (Seq<char>, Seq<char>)|
                    #![trigger spec_pair_listed(taken, k)]
                    spec_pair_listed(taken, k) implies !self@.profiles.contains_key(k) by {
                    let w = choose|w: int| 0 <= w < taken.len() && taken[w] == k;
                    if w < i {
                        assert(changes@.profiles_to_delete.take(i as int)[w] == k);
                        assert(spec_pair_listed(changes@.profiles_to_delete.take(i as int), k));
                    } else {
                        assert(k == key@);
                    }
                }
                assert forall|k: (Seq<char>, Seq<char>)|
                    #![trigger spec_pair_listed(taken, k)]
                    !spec_pair_listed(taken, k) implies !spec_pair_listed(
                    changes@.profiles_to_delete.take(i as int),
                    k,
                ) && k != key@ by {
                    if spec_pair_listed(changes@.profiles_to_delete.take(i as int), k) {
                        let w = choose|w: int|
                            0 <= w < i && changes@.profiles_to_delete.take(i as int)[w] == k;
                        assert(taken[w] == k);
                    }
                    assert(taken[i as int] == key@);
                }
                assert(taken =~= changes@.profiles_to_delete.take(i as int + 1));
            }
            i += 1;
        }
        proof {
            assert(changes@.profiles_to_delete.take(dn as int) =~= changes@.profiles_to_delete);
        }
        let ghost deleted = self@.profiles;
        proof {
            assert forall|k: (Seq<char>, Seq<char>)|
                #![trigger spec_pair_listed(changes@.profiles_to_delete, k)]
                spec_pair_listed(changes@.profiles_to_delete, k) implies !deleted.contains_key(
                k,
            ) by {
                assert(spec_pair_listed(changes@.profiles_to_delete.take(dn as int), k));
            }
            assert forall|k: (Seq<char>, Seq<char>)|
                #![trigger spec_pair_listed(changes@.profiles_to_delete, k)]
                !spec_pair_listed(changes@.profiles_to_delete, k) implies (deleted.contains_key(k)
                == old(self)@.profiles.contains_key(k) && (old(self)@.profiles.contains_key(k)
                ==> deleted[k] == old(self)@.profiles[k])) by {
                assert(!spec_pair_listed(changes@.profiles_to_delete.take(dn as int), k));
            }
        }
        self.profiles.absorb_from(&changes.profiles);
        proof {
            assert forall|k: (Seq<char>, Seq<char>)| #![auto]
                changes@.profiles.contains_key(k) implies self@.profiles.contains_key(k)
                && self@.profiles[k] == changes@.profiles[k] by {}
            assert forall|k: (Seq<char>, Seq<char>)|
                #![trigger spec_pair_listed(changes@.profiles_to_delete, k)]
                !changes@.profiles.contains_key(k) && spec_pair_listed(
                changes@.profiles_to_delete,
                k,
            ) implies !self@.profiles.contains_key(k) by {}
            assert forall|k: (Seq<char>, Seq<char>)|
                #![trigger spec_pair_listed(changes@.profiles_to_delete, k)]
                !changes@.profiles.contains_key(k) && !spec_pair_listed(
                changes@.profiles_to_delete,
                k,
            ) implies (self@.profiles.contains_key(k) == old(self)@.profiles.contains_key(k) && (
            old(self)@.profiles.contains_key(k) ==> self@.profiles[k] == old(
                self,
            )@.profiles[k])) by {}
        }

        // Every other table is a plain union, the change set winning.
        self.state.absorb_from(&changes.state);
        self.stripped_state.absorb_from(&changes.stripped_state);
        self.redactions.absorb_from(&changes.redactions);
        self.account_data.absorb_from(&changes.account_data);
        self.room_account_data.absorb_from(&changes.room_account_data);
        self.presence.absorb_from(&changes.presence);
        self.receipts.absorb_from(&changes.receipts);
        self.ambiguity_maps.absorb_from(&changes.ambiguity_maps);

        // Fold the new room summaries into the rooms.
        let ghost mid = self@;
        let rn = changes.room_infos.len();
        proof {
            assert(changes.room_infos.entries@.take(0) =~= Seq::<(String, RoomInfo)>::empty());
        }
        let mut ri: usize = 0;
        while ri < rn
            invariant
                ri <= rn,
                rn == changes.room_infos.entries@.len(),
                changes.room_infos.wf(),
                self.wf(),
                self@ == (StateStoreV {
                    rooms: spec_rooms_folded(mid.rooms, changes.room_infos.entries@.take(ri as int)),
                    ..mid
                }),
            decreases rn - ri,
        {
            let key = changes.room_infos.entries[ri].0.dup();
            let info = changes.room_infos.entries[ri].1.dup();
            self.put_room_info_keyed(&key, info);
            proof {
                let ghost entries = changes.room_infos.entries@;
                assert(entries.take(ri as int + 1).drop_last() =~= entries.take(ri as int));
                assert(entries.take(ri as int + 1).last() == entries[ri as int]);
                assert(self@ =~= (StateStoreV {
                    rooms: spec_rooms_folded(mid.rooms, entries.take(ri as int + 1)),
                    ..mid
                }));
            }
            ri += 1;
        }
        proof {
            let ghost entries = changes.room_infos.entries@;
            assert(entries.take(rn as int) =~= entries);
            lemma_rooms_folded_pointwise(mid.rooms, entries);
            assert(mid.rooms == old(self)@.rooms);
            assert(changes@.room_infos == KMap::<String, RoomInfo>::map_of(entries));
        }

        // The committed sync token.
        if let Some(t) = &changes.sync_token {
            self.sync_token = Some(t.clone());
        }
    }

    /// The stored state event under (room, event type, state key).
    pub fn get_state_event(&self, room_id: &String, event_type: &String, state_key: &String) -> (r:
        Option<&StateEventInput>)
        requires
            self.wf(),
        ensures
            match r {
                Some(e) => self@.state.contains_key((room_id@, event_type@, state_key@))
                    && e.deep_view() == self@.state[(room_id@, event_type@, state_key@)],
                None => !self@.state.contains_key((room_id@, event_type@, state_key@)),
            },
    {
        self.state.get(&(room_id.clone(), event_type.clone(), state_key.clone()))
    }

    /// The stored global account-data event of a type.
    pub fn get_account_data_event(&self, event_type: &String) -> (r: Option<&AccountDataEvent>)
        requires
            self.wf(),
        ensures
            match r {
                Some(e) => self@.account_data.contains_key(event_type@) && e.deep_view()
                    == self@.account_data[event_type@],
                None => !self@.account_data.contains_key(event_type@),
            },
    {
        self.account_data.get(event_type)
    }

    /// The stored profile for (room, user).
    pub fn get_profile(&self, room_id: &String, user_id: &String) -> (r: Option<&MemberContent>)
        requires
            self.wf(),
        ensures
            match r {
                Some(p) => self@.profiles.contains_key((room_id@, user_id@)) && p.deep_view()
                    == self@.profiles[(room_id@, user_id@)],
                None => !self@.profiles.contains_key((room_id@, user_id@)),
            },
    {
        self.profiles.get(&(room_id.clone(), user_id.clone()))
    }

    /// A stored key-value datum (filter ids).
    pub fn get_kv(&self, key: &String) -> (r: Option<&String>)
        requires
            self.wf(),
        ensures
            match r {
                Some(v) => self@.kv.contains_key(key@) && v@ == self@.kv[key@],
                None => !self@.kv.contains_key(key@),
            },
    {
        self.kv.get(key)
    }

    pub fn set_kv(&mut self, key: String, value: String)
        requires
            old(self).wf(),
        ensures
            final(self).wf(),
            final(self)@ == (StateStoreV { kv: old(self)@.kv.insert(key@, value@), ..old(self)@ }),
    {
        self.kv.insert(key, value);
    }

    /// The user ids of the room's members whose membership the filter
    /// accepts, each exactly once.
    pub fn get_user_ids(&self, room_id: &String, filter: MembershipsFilter) -> (r: Vec<String>)
        requires
            self.wf(),
        ensures
            forall|u: Seq<char>|
                #![auto]
                spec_contains_str(r@, u) <==> (self@.state.contains_key(
                    (room_id@, "m.room.member"@, u),
                ) && spec_member_matches(self@.state[(room_id@, "m.room.member"@, u)], filter)),
            forall|i: int, j: int| 0 <= i < j < r@.len() ==> r@[i]@ != r@[j]@,
    {
        let mut out: Vec<String> = Vec::new();
        let n = self.state.entries.len();
        let member_type: String = "m.room.member".to_owned();
        for i in 0..n
            invariant
                n == self.state.entries@.len(),
                self.wf(),
                member_type@ == "m.room.member"@,
                forall|u: Seq<char>|
                    #![trigger spec_contains_str(out@, u)]
                    spec_contains_str(out@, u) <==> (exists|j: int|
                        0 <= j < i && (#[trigger] self.state.entries@[j]).0@ == (
                            room_id@,
                            "m.room.member"@,
                            u,
                        ) && spec_member_matches(self.state.entries@[j].1.deep_view(), filter)),
                forall|w1: int, w2: int| 0 <= w1 < w2 < out@.len() ==> out@[w1]@ != out@[w2]@,
        {
            let key = &self.state.entries[i].0;
            let matching = if key.0.eq(room_id) && key.1.eq(&member_type) {
                match &self.state.entries[i].1.parsed {
                    Some(m) => match &m.content {
                        StateContent::Member(mc) => filter.matches(mc.membership),
                        _ => false,
                    },
                    None => false,
                }
            } else {
                false
            };
            if matching {
                let u = key.2.clone();
                let ghost pre = out@;
                proof {
                    assert(self.state.entries@[i as int].0@ == (room_id@, "m.room.member"@, u@));
                    assert forall|w1: int| 0 <= w1 < out@.len() implies out@[w1]@ != u@ by {
                        if out@[w1]@ == u@ {
                            assert(spec_contains_str(out@, u@));
                            let j = choose|j: int|
                                0 <= j < i && self.state.entries@[j].0@ == (
                                    room_id@,
                                    "m.room.member"@,
                                    u@,
                                ) && spec_member_matches(
                                    self.state.entries@[j].1.deep_view(),
                                    filter,
                                );
                            assert(self.state.entries@[j].0@ == self.state.entries@[i as int].0@);
                        }
                    }
                }
                out.push(u);
                proof {
                    assert forall|uu: Seq<char>|
                        #![trigger spec_contains_str(out@, uu)]
                        spec_contains_str(out@, uu) <==> (exists|j: int|
                            0 <= j < i + 1 && (#[trigger] self.state.entries@[j]).0@ == (
                                room_id@,
                                "m.room.member"@,
                                uu,
                            ) && spec_member_matches(
                                self.state.entries@[j].1.deep_view(),
                                filter,
                            )) by {
                        if spec_contains_str(out@, uu) {
                            let w = choose|w: int| 0 <= w < out@.len() && out@[w]@ == uu;
                            if w < pre.len() {
                                assert(spec_contains_str(pre, uu));
                            } else {
                                assert(self.state.entries@[i as int].0@ == (
                                    room_id@,
                                    "m.room.member"@,
                                    uu,
                                ));
                            }
                        }
                        if exists|j: int|
                            0 <= j < i + 1 && (#[trigger] self.state.entries@[j]).0@ == (
                                room_id@,
                                "m.room.member"@,
                                uu,
                            ) && spec_member_matches(
                                self.state.entries@[j].1.deep_view(),
                                filter,
                            ) {
                            let j = choose|j: int|
                                0 <= j < i + 1 && (#[trigger] self.state.entries@[j]).0@ == (
                                    room_id@,
                                    "m.room.member"@,
                                    uu,
                                ) && spec_member_matches(
                                    self.state.entries@[j].1.deep_view(),
                                    filter,
                                );
                            if j < i {
                                assert(spec_contains_str(pre, uu));
                                let w = choose|w: int| 0 <= w < pre.len() && pre[w]@ == uu;
                                assert(out@[w]@ == uu);
                            } else {
                                assert(out@[out@.len() - 1]@ == uu);
                            }
                        }
                    }
                }
            } else {
                proof {
                    assert forall|uu: Seq<char>|
                        #![trigger spec_contains_str(out@, uu)]
                        spec_contains_str(out@, uu) <==> (exists|j: int|
                            0 <= j < i + 1 && (#[trigger] self.state.entries@[j]).0@ == (
                                room_id@,
                                "m.room.member"@,
                                uu,
                            ) && spec_member_matches(
                                self.state.entries@[j].1.deep_view(),
                                filter,
                            )) by {
                        if exists|j: int|
                            0 <= j < i + 1 && (#[trigger] self.state.entries@[j]).0@ == (
                                room_id@,
                                "m.room.member"@,
                                uu,
                            ) && spec_member_matches(
                                self.state.entries@[j].1.deep_view(),
                                filter,
                            ) {
                            let j = choose|j: int|
                                0 <= j < i + 1 && (#[trigger] self.state.entries@[j]).0@ == (
                                    room_id@,
                                    "m.room.member"@,
                                    uu,
                                ) && spec_member_matches(
                                    self.state.entries@[j].1.deep_view(),
                                    filter,
                                );
                            assert(j != i);
                        }
                    }
                }
            }
        }
        proof {
            assert forall|u: Seq<char>| #![auto]
                spec_contains_str(out@, u) implies (
                self@.state.contains_key((room_id@, "m.room.member"@, u)) && spec_member_matches(
                    self@.state[(room_id@, "m.room.member"@, u)],
                    filter,
                )) by {
                let j = choose|j: int|
                    0 <= j < n && (#[trigger] self.state.entries@[j]).0@ == (
                        room_id@,
                        "m.room.member"@,
                        u,
                    ) && spec_member_matches(self.state.entries@[j].1.deep_view(), filter);
                KMap::<(String, String, String), StateEventInput>::lemma_at(
                    self.state.entries@,
                    j,
                );
            }
            assert forall|u: Seq<char>| #![auto]
                (self@.state.contains_key((room_id@, "m.room.member"@, u)) && spec_member_matches(
                    self@.state[(room_id@, "m.room.member"@, u)],
                    filter,
                )) implies spec_contains_str(out@, u) by {
                KMap::<(String, String, String), StateEventInput>::lemma_contains(
                    self.state.entries@,
                    (room_id@, "m.room.member"@, u),
                );
                let j = choose|j: int|
                    0 <= j < n && self.state.entries@[j].0@ == (room_id@, "m.room.member"@, u);
                KMap::<(String, String, String), StateEventInput>::lemma_at(
                    self.state.entries@,
                    j,
                );
                assert((#[trigger] self.state.entries@[j]).0@ == (room_id@, "m.room.member"@, u)
                    && spec_member_matches(self.state.entries@[j].1.deep_view(), filter));
            }
        }
        out
    }

    /// The member snapshots the store holds for a room: one pair per stored
    /// member event that parsed, each user exactly once, and none missing.
    pub fn room_member_snapshots(&self, room_id: &String) -> (r: Vec<
        (String, crate::ambiguity::MemberSnapshot),
    >)
        requires
            self.wf(),
        ensures
            forall|w: int|
                #![auto]
                0 <= w < r@.len() ==> self@.state.contains_key(
                    (room_id@, "m.room.member"@, r@[w].0@),
                ) && crate::ambiguity::spec_snapshot_of(
                    self@.state[(room_id@, "m.room.member"@, r@[w].0@)],
                ) == Some(r@[w].1.deep_view()),
            forall|u: Seq<char>|
                #![trigger self@.state.contains_key((room_id@, "m.room.member"@, u))]
                self@.state.contains_key((room_id@, "m.room.member"@, u))
                    && crate::ambiguity::spec_snapshot_of(
                    self@.state[(room_id@, "m.room.member"@, u)],
                ) is Some ==> exists|w: int| 0 <= w < r@.len() && (#[trigger] r@[w]).0@ == u,
            forall|w1: int, w2: int| 0 <= w1 < w2 < r@.len() ==> r@[w1].0@ != r@[w2].0@,
    {
        let mut out: Vec<(String, crate::ambiguity::MemberSnapshot)> = Vec::new();
        let n = self.state.entries.len();
        let member_type: String = "m.room.member".to_owned();
        for i in 0..n
            invariant
                n == self.state.entries@.len(),
                self.wf(),
                member_type@ == "m.room.member"@,
                forall|w: int|
                    #![auto]
                    0 <= w < out@.len() ==> self@.state.contains_key(
                        (room_id@, "m.room.member"@, out@[w].0@),
                    ) && crate::ambiguity::spec_snapshot_of(
                        self@.state[(room_id@, "m.room.member"@, out@[w].0@)],
                    ) == Some(out@[w].1.deep_view()),
                forall|w: int|
                    #![trigger out@[w]]
                    0 <= w < out@.len() ==> exists|j: int|
                        0 <= j < i && (#[trigger] self.state.entries@[j]).0@ == (
                            room_id@,
                            "m.room.member"@,
                            out@[w].0@,
                        ),
                forall|j: int|
                    #![trigger self.state.entries@[j]]
                    0 <= j < i && self.state.entries@[j].0@.0 == room_id@
                        && self.state.entries@[j].0@.1 == "m.room.member"@
                        && crate::ambiguity::spec_snapshot_of(
                        self.state.entries@[j].1.deep_view(),
                    ) is Some ==> exists|w: int|
                        0 <= w < out@.len() && (#[trigger] out@[w]).0@
                            == self.state.entries@[j].0@.2,
                forall|w1: int, w2: int| 0 <= w1 < w2 < out@.len() ==> out@[w1].0@ != out@[w2].0@,
        {
            let ghost pre = out@;
            let key = &self.state.entries[i].0;
            let mut pushed = false;
            if key.0.eq(room_id) && key.1.eq(&member_type) {
                match &self.state.entries[i].1.parsed {
                    Some(m) => match &m.content {
                        StateContent::Member(mc) => {
                            proof {
                                KMap::<
                                    (String, String, String),
                                    StateEventInput,
                                >::lemma_at(self.state.entries@, i as int);
                            }
                            let snap = crate::ambiguity::MemberSnapshot {
                                membership: mc.membership,
                                displayname: mc.displayname.dup(),
                            };
                            let u = key.2.clone();
                            proof {
                                assert(self.state.entries@[i as int].0@ == (
                                    room_id@,
                                    "m.room.member"@,
                                    u@,
                                ));
                                // a second pair for the same user would mean
                                // two entries under one key
                                assert forall|w: int|
                                    0 <= w < out@.len() implies (#[trigger] out@[w]).0@
                                    != u@ by {
                                    if out@[w].0@ == u@ {
                                        let j = choose|j: int|
                                            0 <= j < i && (#[trigger] self.state.entries@[j]).0@
                                                == (room_id@, "m.room.member"@, u@);
                                        assert(self.state.entries@[j].0@
                                            == self.state.entries@[i as int].0@);
                                    }
                                }
                            }
                            out.push((u, snap));
                            pushed = true;
                        },
                        _ => {},
                    },
                    None => {},
                }
            }
            proof {
                if !pushed {
                    // this entry cannot carry a member snapshot for the room
                    if self.state.entries@[i as int].0@.0 == room_id@
                        && self.state.entries@[i as int].0@.1 == "m.room.member"@ {
                        assert(crate::ambiguity::spec_snapshot_of(
                            self.state.entries@[i as int].1.deep_view(),
                        ) is None);
                    }
                }
                assert forall|j: int|
                    #![trigger self.state.entries@[j]]
                    0 <= j < i + 1 && self.state.entries@[j].0@.0 == room_id@
                        && self.state.entries@[j].0@.1 == "m.room.member"@
                        && crate::ambiguity::spec_snapshot_of(
                        self.state.entries@[j].1.deep_view(),
                    ) is Some implies exists|w: int|
                    0 <= w < out@.len() && (#[trigger] out@[w]).0@
                        == self.state.entries@[j].0@.2 by {
                    if j < i {
                        let w = choose|w: int|
                            0 <= w < pre.len() && (#[trigger] pre[w]).0@
                                == self.state.entries@[j].0@.2;
                        assert(out@[w].0@ == self.state.entries@[j].0@.2);
                    } else {
                        assert(pushed);
                        assert(out@[out@.len() - 1].0@ == self.state.entries@[i as int].0@.2);
                    }
                }
            }
        }
        proof {
            assert forall|u: Seq<char>|
                #![trigger self@.state.contains_key((room_id@, "m.room.member"@, u))]
                self@.state.contains_key((room_id@, "m.room.member"@, u))
                    && crate::ambiguity::spec_snapshot_of(
                    self@.state[(room_id@, "m.room.member"@, u)],
                ) is Some implies exists|w: int|
                0 <= w < out@.len() && (#[trigger] out@[w]).0@ == u by {
                KMap::<(String, String, String), StateEventInput>::lemma_contains(
                    self.state.entries@,
                    (room_id@, "m.room.member"@, u),
                );
                let j = choose|j: int|
                    0 <= j < self.state.entries@.len() && self.state.entries@[j].0@ == (
                        room_id@,
                        "m.room.member"@,
                        u,
                    );
                KMap::<(String, String, String), StateEventInput>::lemma_at(
                    self.state.entries@,
                    j,
                );
                assert((#[trigger] self.state.entries@[j]).0@.0 == room_id@);
            }
        }
        out
    }

    /// Forget a room: its entry and all its stored state are removed.
    pub fn forget_room(&mut self, room_id: &String)
        requires
            old(self).wf(),
        ensures
            final(self).wf(),
            !final(self)@.rooms.contains_key(room_id@),
            forall|k: Seq<char>|
                #![trigger old(self)@.rooms.contains_key(k)]
                k != room_id@ ==> (final(self)@.rooms.contains_key(k) == old(self)@.rooms.contains_key(k) && (old(self)@.rooms.contains_key(k) ==> final(self)@.rooms[k] == old(self)@.rooms[k])),
            forall|k: (Seq<char>, Seq<char>, Seq<char>)|
                #![trigger final(self)@.state.contains_key(k)]
                k.0 == room_id@ ==> !final(self)@.state.contains_key(k),
            forall|k: (Seq<char>, Seq<char>, Seq<char>)|
                #![trigger old(self)@.state.contains_key(k)]
                k.0 != room_id@ ==> (final(self)@.state.contains_key(k) == old(self)@.state.contains_key(k) && (old(self)@.state.contains_key(k) ==> final(self)@.state[k] == old(self)@.state[k])),
            final(self)@.stripped_state == old(self)@.stripped_state,
            final(self)@.account_data == old(self)@.account_data,
            final(self)@.profiles == old(self)@.profiles,
            final(self)@.kv == old(self)@.kv,
            final(self)@.sync_token == old(self)@.sync_token,
    {
        self.rooms.remove(room_id);
        loop
            invariant_except_break
                self.wf(),
                !self@.rooms.contains_key(room_id@),
                forall|k: Seq<char>|
                    #![trigger old(self)@.rooms.contains_key(k)]
                    k != room_id@ ==> (self@.rooms.contains_key(k) == old(self)@.rooms.contains_key(k) && (old(self)@.rooms.contains_key(k)
                        ==> self@.rooms[k] == old(self)@.rooms[k])),
                forall|k: (Seq<char>, Seq<char>, Seq<char>)|
                    #![trigger old(self)@.state.contains_key(k)]
                    k.0 != room_id@ ==> (self@.state.contains_key(k) == old(self)@.state.contains_key(k) && (old(self)@.state.contains_key(k)
                        ==> self@.state[k] == old(self)@.state[k])),
                self@.stripped_state == old(self)@.stripped_state,
                self@.account_data == old(self)@.account_data,
                self@.profiles == old(self)@.profiles,
                self@.kv == old(self)@.kv,
                self@.sync_token == old(self)@.sync_token,
            ensures
                self.wf(),
                !self@.rooms.contains_key(room_id@),
                forall|k: Seq<char>|
                    #![trigger old(self)@.rooms.contains_key(k)]
                    k != room_id@ ==> (self@.rooms.contains_key(k) == old(self)@.rooms.contains_key(k) && (old(self)@.rooms.contains_key(k)
                        ==> self@.rooms[k] == old(self)@.rooms[k])),
                forall|k: (Seq<char>, Seq<char>, Seq<char>)|
                    #![trigger self@.state.contains_key(k)]
                    k.0 == room_id@ ==> !self@.state.contains_key(k),
                forall|k: (Seq<char>, Seq<char>, Seq<char>)|
                    #![trigger old(self)@.state.contains_key(k)]
                    k.0 != room_id@ ==> (self@.state.contains_key(k) == old(self)@.state.contains_key(k) && (old(self)@.state.contains_key(k)
                        ==> self@.state[k] == old(self)@.state[k])),
                self@.stripped_state == old(self)@.stripped_state,
                self@.account_data == old(self)@.account_data,
                self@.profiles == old(self)@.profiles,
                self@.kv == old(self)@.kv,
                self@.sync_token == old(self)@.sync_token,
            decreases self.state.entries@.len(),
        {
            let mut found: Option<usize> = None;
            let n = self.state.entries.len();
            let mut i: usize = 0;
            while i < n
                invariant_except_break
                    n == self.state.entries@.len(),
                    i <= n,
                    found.is_none(),
                    forall|j: int|
                        #![trigger self.state.entries@[j]]
                        0 <= j < i ==> self.state.entries@[j].0.0@ != room_id@,
                ensures
                    match found {
                        Some(w) => w < n && self.state.entries@[w as int].0.0@ == room_id@,
                        None => forall|j: int|
                            #![trigger self.state.entries@[j]]
                            0 <= j < n ==> self.state.entries@[j].0.0@ != room_id@,
                    },
                decreases n - i,
            {
                if self.state.entries[i].0.0.eq(room_id) {
                    found = Some(i);
                    break;
                }
                i += 1;
            }
            match found {
                Some(i) => {
                    proof {
                        KMap::<(String, String, String), StateEventInput>::lemma_remove_index(
                            self.state.entries@,
                            i as int,
                        );
                    }
                    self.state.entries.remove(i);
                },
                None => {
                    proof {
                        assert forall|k: (Seq<char>, Seq<char>, Seq<char>)|
                            #![trigger self@.state.contains_key(k)]
                            k.0 == room_id@ implies !self@.state.contains_key(k) by {
                            KMap::<
                                (String, String, String),
                                StateEventInput,
                            >::lemma_contains(self.state.entries@, k);
                            if self@.state.contains_key(k) {
                                let w = choose|w: int|
                                    0 <= w < self.state.entries@.len()
                                        && self.state.entries@[w].0@ == k;
                                assert(self.state.entries@[w].0.0@ == k.0);
                                assert(self.state.entries@[w].0.0@ != room_id@);
                            }
                        }
                    }
                    break;
                },
            }
        }
    }
}

/// Extraction of a user's displayed name from a stored member event: the
/// display name when one is set, otherwise nothing.
pub open spec fn spec_member_displayname(e: StateEventInputV) -> Option<Seq<char>> {
    match e.parsed {
        Some(m) => match m.content {
            StateContentV::Member(mc) => mc.displayname,
            _ => None,
        },
        None => None,
    }
}

} // verus!
