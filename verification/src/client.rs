//! The engine itself: a no-I/O client that folds sync responses into its
//! store and answers queries about rooms and members.

use vstd::prelude::*;

use crate::ambiguity::AmbiguityCache;
use crate::changes::StateChanges;
use crate::error::EngineError;
use crate::events::{
    AccountDataEvent, AccountDataEventV, MemberContent, RoomAccountDataContent,
    RoomAccountDataEvent, StateContent, StateEventInput,
};
use crate::kmap::{KMap, StrSet};
use crate::response::{
    CryptoCommand, InvitedRoomInput, JoinedRoomInput, JoinedRoomUpdate, LeftRoomInput,
    LeftRoomUpdate, NotificationModel, SyncInput, SyncOutput, TimelineUpdate,
};
use crate::room::{
    MembersSyncStatus, NotableReasons, Room, RoomInfo, RoomInfoV, RoomState, RoomStateFilter,
    SessionMeta,
};
use crate::store::{spec_pair_listed, MembershipsFilter, StateStore, StateStoreV};
use crate::timeline::{
    decrypt_latest_events, get_push_room_context, handle_room_member_event_for_profiles,
};
use crate::util::{str_is, DupView};

verus! {

/// How recipient devices are picked when sharing a room key.
#[derive(Clone, Copy, Debug, PartialEq, Eq, Structural)]
pub enum CollectStrategyModel {
    AllDevices,
    ErrorOnVerifiedUserProblem,
    IdentityBasedStrategy,
}

/// The trust a sender's device must have for decryption.
#[derive(Clone, Copy, Debug, PartialEq, Eq, Structural)]
pub enum TrustRequirementModel {
    Untrusted,
    CrossSignedOrLegacy,
    CrossSigned,
}

/// A no-I/O client: a state machine that receives responses and events and
/// updates its state accordingly. A host drives it and performs the I/O and
/// cryptography it asks for.
pub struct BaseClient {
    /// The state store, with every room the client knows.
    pub state_store: StateStore,
    /// The logged-in session, once activated.
    pub session: Option<SessionMeta>,
    /// Whether a cryptographic engine is attached to the host.
    pub crypto_enabled: bool,
    /// Whether verification events are dispatched.
    pub handle_verification_events: bool,
    /// How recipient devices are picked when sharing a room key.
    pub room_key_recipient_strategy: CollectStrategyModel,
    /// The trust a sender's device must have for decryption.
    pub decryption_trust_requirement: TrustRequirementModel,
}

impl BaseClient {
    pub open spec fn wf(&self) -> bool {
        self.state_store.wf()
    }

    /// A fresh client with an empty store and no session; every device is a
    /// key recipient, and decryption trusts any sender device.
    pub fn new() -> (r: Self)
        ensures
            r.wf(),
            r.session is None,
            !r.crypto_enabled,
            r.handle_verification_events,
            r.room_key_recipient_strategy == CollectStrategyModel::AllDevices,
            r.decryption_trust_requirement == TrustRequirementModel::Untrusted,
            r.state_store@.rooms == Map::<Seq<char>, crate::room::RoomV>::empty(),
            r.state_store@.sync_token is None,
    {
        BaseClient {
            state_store: StateStore::new(),
            session: None,
            crypto_enabled: false,
            handle_verification_events: true,
            room_key_recipient_strategy: CollectStrategyModel::AllDevices,
            decryption_trust_requirement: TrustRequirementModel::Untrusted,
        }
    }

    /// A copy of this client over a fresh, empty store, with transient
    /// state reset; the host keeps sharing the cryptographic engine.
    pub fn clone_with_in_memory_state_store(&self, handle_verification_events: bool) -> (r: Self)
        ensures
            r.wf(),
            r.session is None,
            r.crypto_enabled == self.crypto_enabled,
            r.handle_verification_events == handle_verification_events,
            r.state_store@.sync_token is None,
    {
        BaseClient {
            state_store: StateStore::new(),
            session: None,
            crypto_enabled: self.crypto_enabled,
            handle_verification_events,
            room_key_recipient_strategy: self.room_key_recipient_strategy,
            decryption_trust_requirement: self.decryption_trust_requirement,
        }
    }

    /// The session, when the client is active.
    pub fn session_meta(&self) -> (r: &Option<SessionMeta>)
        ensures
            r == &self.session,
    {
        &self.session
    }

    /// Whether the client holds a session.
    pub fn is_active(&self) -> (r: bool)
        ensures
            r == (self.session is Some),
    {
        self.session.is_some()
    }

    /// Activate the client with a session. Activating twice fails and
    /// changes nothing.
    pub fn activate(&mut self, session_meta: SessionMeta) -> (r: Result<(), EngineError>)
        requires
            old(self).wf(),
        ensures
            final(self).wf(),
            old(self).session is Some ==> r == Result::<(), EngineError>::Err(
                EngineError::AlreadyActivated,
            ) && *final(self) == *old(self),
            old(self).session is None ==> r is Ok && final(self).session == Some(session_meta)
                && final(self).state_store == old(self).state_store,
    {
        if self.session.is_some() {
            return Err(EngineError::AlreadyActivated);
        }
        self.session = Some(session_meta);
        Ok(())
    }

    /// The sync token of the last committed sync, if any.
    pub fn sync_token(&self) -> (r: Option<String>)
        requires
            self.wf(),
        ensures
            crate::util::opt_str_view(r) == self.state_store@.sync_token,
    {
        self.state_store.sync_token.dup()
    }

    /// All known rooms, in store order.
    pub fn rooms(&self) -> (r: Vec<Room>)
        requires
            self.wf(),
        ensures
            r@.len() == self.state_store.rooms.entries@.len(),
            forall|i: int|
                0 <= i < r@.len() ==> #[trigger] r@[i].deep_view()
                    == self.state_store.rooms.entries@[i].1.deep_view(),
    {
        let mut out: Vec<Room> = Vec::new();
        let n = self.state_store.rooms.entries.len();
        for i in 0..n
            invariant
                n == self.state_store.rooms.entries@.len(),
                out@.len() == i,
                forall|j: int|
                    0 <= j < i ==> #[trigger] out@[j].deep_view()
                        == self.state_store.rooms.entries@[j].1.deep_view(),
        {
            out.push(self.state_store.rooms.entries[i].1.dup());
        }
        out
    }

    /// The known rooms whose lifecycle state the filter accepts.
    pub fn rooms_filtered(&self, filter: RoomStateFilter) -> (r: Vec<Room>)
        requires
            self.wf(),
        ensures
            forall|i: int|
                #![trigger r@[i]]
                0 <= i < r@.len() ==> filter.spec_matches(r@[i].deep_view().info.state) && exists|
                    j: int,
                |
                    0 <= j < self.state_store.rooms.entries@.len() && r@[i].deep_view()
                        == #[trigger] self.state_store.rooms.entries@[j].1.deep_view(),
    {
        let mut out: Vec<Room> = Vec::new();
        let n = self.state_store.rooms.entries.len();
        for i in 0..n
            invariant
                n == self.state_store.rooms.entries@.len(),
                forall|j: int|
                    #![trigger out@[j]]
                    0 <= j < out@.len() ==> filter.spec_matches(out@[j].deep_view().info.state)
                        && exists|w: int|
                        0 <= w < self.state_store.rooms.entries@.len() && out@[j].deep_view()
                            == #[trigger] self.state_store.rooms.entries@[w].1.deep_view(),
        {
            let room = &self.state_store.rooms.entries[i].1;
            if filter.matches(room.info.state) {
                let d = room.dup();
                let ghost pre = out@;
                out.push(d);
                proof {
                    assert(room.info.state == room.deep_view().info.state);
                    assert(d.deep_view() == self.state_store.rooms.entries@[i as int].1.deep_view());
                    assert forall|j: int|
                        #![trigger out@[j]]
                        0 <= j < out@.len() implies filter.spec_matches(
                        out@[j].deep_view().info.state,
                    ) && exists|w: int|
                        0 <= w < self.state_store.rooms.entries@.len() && out@[j].deep_view()
                            == #[trigger] self.state_store.rooms.entries@[w].1.deep_view() by {
                        if j < pre.len() {
                            assert(out@[j] == pre[j]);
                        } else {
                            assert(out@[j] == d);
                            assert(filter.spec_matches(d.deep_view().info.state));
                            assert(d.deep_view() == self.state_store.rooms.entries@[
                                i as int
                            ].1.deep_view());
                        }
                    }
                }
            }
        }
        out
    }

    /// The room with this id, if known, as a snapshot.
    pub fn get_room(&self, room_id: &String) -> (r: Option<Room>)
        requires
            self.wf(),
        ensures
            match r {
                Some(room) => self.state_store@.rooms.contains_key(room_id@) && room.deep_view()
                    == self.state_store@.rooms[room_id@],
                None => !self.state_store@.rooms.contains_key(room_id@),
            },
    {
        match self.state_store.room(room_id) {
            Some(room) => Some(room.dup()),
            None => None,
        }
    }

    /// Look the room up, creating it in the given lifecycle state if the
    /// store does not know it yet; the snapshot of the room comes back.
    pub fn get_or_create_room(&mut self, room_id: &String, room_state: RoomState) -> (r: Room)
        requires
            old(self).wf(),
        ensures
            final(self).wf(),
            final(self).session == old(self).session,
            final(self).state_store@ == (StateStoreV {
                rooms: if old(self).state_store@.rooms.contains_key(room_id@) {
                    old(self).state_store@.rooms
                } else {
                    old(self).state_store@.rooms.insert(
                        room_id@,
                        crate::room::RoomV {
                            info: RoomInfo::spec_new(room_id@, room_state),
                            latest_encrypted_events: Seq::empty(),
                        },
                    )
                },
                ..old(self).state_store@
            }),
            r.deep_view() == final(self).state_store@.rooms[room_id@],
    {
        self.state_store.get_or_create_room(room_id, room_state);
        match self.state_store.room(room_id) {
            Some(room) => room.dup(),
            None => unreached(),
        }
    }

    /// Persist an uploaded filter's id under its name.
    pub fn receive_filter_upload(&mut self, filter_name: &String, filter_id: String)
        requires
            old(self).wf(),
        ensures
            final(self).wf(),
            final(self).state_store@ == (StateStoreV {
                kv: old(self).state_store@.kv.insert(filter_name@, filter_id@),
                ..old(self).state_store@
            }),
            final(self).session == old(self).session,
    {
        self.state_store.set_kv(filter_name.clone(), filter_id);
    }

    /// The persisted id of a named filter.
    pub fn get_filter(&self, filter_name: &String) -> (r: Option<String>)
        requires
            self.wf(),
        ensures
            match r {
                Some(id) => self.state_store@.kv.contains_key(filter_name@) && id@
                    == self.state_store@.kv[filter_name@],
                None => !self.state_store@.kv.contains_key(filter_name@),
            },
    {
        match self.state_store.get_kv(filter_name) {
            Some(v) => Some(v.clone()),
            None => None,
        }
    }

    /// Forget a room: it leaves the store with all its state. The host must
    /// drop it from its event cache as well.
    pub fn forget_room(&mut self, room_id: &String)
        requires
            old(self).wf(),
        ensures
            final(self).wf(),
            !final(self).state_store@.rooms.contains_key(room_id@),
            final(self).session == old(self).session,
    {
        self.state_store.forget_room(room_id);
    }

    /// A member's profile in a room: the stored self-declared profile when
    /// one exists, the member event's content otherwise.
    pub fn get_member(&self, room_id: &String, user_id: &String) -> (r: Option<MemberContent>)
        requires
            self.wf(),
        ensures
            match r {
                Some(p) => self.state_store@.profiles.contains_key((room_id@, user_id@))
                    && Some(p.deep_view()) == Some(
                    self.state_store@.profiles[(room_id@, user_id@)],
                ) || (!self.state_store@.profiles.contains_key((room_id@, user_id@))
                    && spec_stored_member_content(self.state_store@, room_id@, user_id@) == Some(
                    p.deep_view(),
                )),
                None => !self.state_store@.profiles.contains_key((room_id@, user_id@))
                    && spec_stored_member_content(self.state_store@, room_id@, user_id@) is None,
            },
    {
        if let Some(p) = self.state_store.get_profile(room_id, user_id) {
            return Some(p.dup());
        }
        let member_type: String = "m.room.member".to_owned();
        match self.state_store.get_state_event(room_id, &member_type, user_id) {
            Some(e) => match &e.parsed {
                Some(m) => match &m.content {
                    StateContent::Member(mc) => Some(mc.dup()),
                    _ => None,
                },
                None => None,
            },
            None => None,
        }
    }
}

/// The member content of the stored member event for (room, user), if any.
pub open spec fn spec_stored_member_content(
    store: StateStoreV,
    room: Seq<char>,
    user: Seq<char>,
) -> Option<crate::events::MemberContentV> {
    let key = (room, "m.room.member"@, user);
    if store.state.contains_key(key) {
        match store.state[key].parsed {
            Some(m) => match m.content {
                crate::events::StateContentV::Member(mc) => Some(mc),
                _ => None,
            },
            None => None,
        }
    } else {
        None
    }
}

/// The recorded state events after folding a prefix: every parsed event
/// lands under (room, type, state key), later ones winning.
pub open spec fn spec_folded_state_events(
    m: Map<(Seq<char>, Seq<char>, Seq<char>), crate::events::StateEventInputV>,
    room: Seq<char>,
    events: Seq<StateEventInput>,
    n: int,
) -> Map<(Seq<char>, Seq<char>, Seq<char>), crate::events::StateEventInputV>
    decreases n,
{
    if n <= 0 {
        m
    } else {
        let prev = spec_folded_state_events(m, room, events, n - 1);
        match events[n - 1].parsed {
            Some(e) => prev.insert(
                (room, e.event_type@, e.state_key@),
                events[n - 1].deep_view(),
            ),
            None => prev,
        }
    }
}

/// The member set after folding a prefix of state events: active members
/// are collected, nobody is removed.
pub open spec fn spec_collected_members(
    s: Set<Seq<char>>,
    events: Seq<StateEventInput>,
    n: int,
) -> Set<Seq<char>>
    decreases n,
{
    if n <= 0 {
        s
    } else {
        let prev = spec_collected_members(s, events, n - 1);
        match events[n - 1].parsed {
            Some(e) => match e.content {
                crate::events::StateContent::Member(mc) => if mc.membership.spec_is_active() {
                    prev.insert(e.state_key@)
                } else {
                    prev
                },
                _ => prev,
            },
            None => prev,
        }
    }
}

/// Fold a room's state events from a sync response: the room summary, the
/// member machinery and the change set, exactly as the timeline does for
/// state events, but collecting rather than removing inactive members.
pub fn handle_state(
    room_id: &String,
    events: &Vec<StateEventInput>,
    user_ids: &mut StrSet,
    room_info: &mut RoomInfo,
    changes: &mut StateChanges,
    ambiguity: &mut AmbiguityCache,
)
    requires
        old(user_ids).wf(),
        old(changes).wf(),
        old(ambiguity).wf(),
    ensures
        final(user_ids).wf(),
        final(changes).wf(),
        final(ambiguity).wf(),
        final(ambiguity).seeded == old(ambiguity).seeded,
        final(room_info).room_id@ == old(room_info).room_id@,
        final(room_info).state == old(room_info).state,
        final(room_info).members_sync_status == old(room_info).members_sync_status,
        final(room_info).state_sync_status == old(room_info).state_sync_status,
        // the summary is exactly the fold of the parsed events
        final(room_info).deep_view() == spec_folded_stripped(
            old(room_info).deep_view(),
            events@,
            events@.len() as int,
        ),
        // every parsed event is recorded under (room, type, state key)
        final(changes)@.state == spec_folded_state_events(
            old(changes)@.state,
            room_id@,
            events@,
            events@.len() as int,
        ),
        // the member set collects exactly the active members of the events
        final(user_ids)@ == spec_collected_members(
            old(user_ids)@,
            events@,
            events@.len() as int,
        ),
        forall|u: Seq<char>|
            #![trigger final(changes)@.profiles.contains_key((room_id@, u))]
            final(changes)@.profiles.contains_key((room_id@, u)) && (!old(changes)@.profiles.contains_key((room_id@, u)) || final(changes)@.profiles[(room_id@, u)]
                != old(changes)@.profiles[(room_id@, u)]) ==> exists|i: int|
                0 <= i < events@.len() && #[trigger] spec_state_event_self_profile(
                    events@[i].deep_view().parsed,
                    u,
                ),
        forall|i: int|
            #![auto]
            0 <= i < events@.len() && spec_state_event_invites(events@[i].deep_view().parsed)
                ==> spec_pair_listed(
                final(changes)@.profiles_to_delete,
                (room_id@, spec_state_event_key(events@[i].deep_view().parsed)),
            ),
        forall|p: (Seq<char>, Seq<char>)|
            #![trigger spec_pair_listed(old(changes)@.profiles_to_delete, p)]
            spec_pair_listed(old(changes)@.profiles_to_delete, p) ==> spec_pair_listed(
                final(changes)@.profiles_to_delete,
                p,
            ),
        final(changes)@.account_data == old(changes)@.account_data,
        final(changes)@.stripped_state == old(changes)@.stripped_state,
        final(changes)@.room_account_data == old(changes)@.room_account_data,
        final(changes)@.presence == old(changes)@.presence,
        final(changes)@.receipts == old(changes)@.receipts,
        final(changes)@.room_infos == old(changes)@.room_infos,
        final(changes)@.redactions == old(changes)@.redactions,
        final(changes)@.sync_token == old(changes)@.sync_token,
        // the member set only grows here: inactive members are not removed
        forall|u: Seq<char>|
            #![trigger old(user_ids)@.contains(u)]
            old(user_ids)@.contains(u) ==> final(user_ids)@.contains(u),
{
    let n = events.len();
    for idx in 0..n
        invariant
            n == events@.len(),
            user_ids.wf(),
            changes.wf(),
            ambiguity.wf(),
            ambiguity.seeded == old(ambiguity).seeded,
            room_info.room_id@ == old(room_info).room_id@,
            room_info.state == old(room_info).state,
            room_info.members_sync_status == old(room_info).members_sync_status,
            room_info.state_sync_status == old(room_info).state_sync_status,
            room_info.deep_view() == spec_folded_stripped(
                old(room_info).deep_view(),
                events@,
                idx as int,
            ),
            changes@.state == spec_folded_state_events(
                old(changes)@.state,
                room_id@,
                events@,
                idx as int,
            ),
            user_ids@ == spec_collected_members(old(user_ids)@, events@, idx as int),
            forall|u: Seq<char>|
                #![trigger changes@.profiles.contains_key((room_id@, u))]
                changes@.profiles.contains_key((room_id@, u)) && (!old(changes)@.profiles.contains_key((room_id@, u)) || changes@.profiles[(room_id@, u)] != old(changes)@.profiles[(room_id@, u)]) ==> exists|i: int|
                    0 <= i < idx && #[trigger] spec_state_event_self_profile(
                        events@[i].deep_view().parsed,
                        u,
                    ),
            forall|i: int|
                #![auto]
                0 <= i < idx && spec_state_event_invites(events@[i].deep_view().parsed)
                    ==> spec_pair_listed(
                    changes@.profiles_to_delete,
                    (room_id@, spec_state_event_key(events@[i].deep_view().parsed)),
                ),
            forall|p: (Seq<char>, Seq<char>)|
                #![trigger spec_pair_listed(old(changes)@.profiles_to_delete, p)]
                spec_pair_listed(old(changes)@.profiles_to_delete, p) ==> spec_pair_listed(
                    changes@.profiles_to_delete,
                    p,
                ),
            changes@.account_data == old(changes)@.account_data,
            changes@.stripped_state == old(changes)@.stripped_state,
            changes@.room_account_data == old(changes)@.room_account_data,
            changes@.presence == old(changes)@.presence,
            changes@.receipts == old(changes)@.receipts,
            changes@.room_infos == old(changes)@.room_infos,
            changes@.redactions == old(changes)@.redactions,
            changes@.sync_token == old(changes)@.sync_token,
            forall|u: Seq<char>|
                #![trigger old(user_ids)@.contains(u)]
                old(user_ids)@.contains(u) ==> user_ids@.contains(u),
    {
        let ghost pre_changes = changes@;
        let ev = &events[idx];
        match &ev.parsed {
            Some(e) => {
                match &e.content {
                    StateContent::Member(mc) => {
                        ambiguity.handle_member(
                            room_id,
                            &e.state_key,
                            crate::ambiguity::MemberSnapshot {
                                membership: mc.membership,
                                displayname: mc.displayname.dup(),
                            },
                        );
                        if mc.membership.is_active() {
                            user_ids.insert(e.state_key.clone());
                        }
                        handle_room_member_event_for_profiles(room_id, e, changes);
                        proof {
                            if e.sender@ == e.state_key@ {
                                assert(spec_state_event_self_profile(
                                    events@[idx as int].deep_view().parsed,
                                    e.state_key@,
                                ));
                            }
                            if crate::timeline::spec_member_content_is_invite(
                                e.deep_view().content,
                            ) {
                                assert(changes@.profiles_to_delete.last() == (
                                    room_id@,
                                    e.state_key@,
                                ));
                                assert(spec_pair_listed(
                                    changes@.profiles_to_delete,
                                    (room_id@, e.state_key@),
                                ));
                            }
                        }
                    },
                    _ => {
                        room_info.handle_state_event(e);
                    },
                }
                changes.add_state_event(
                    room_id,
                    &e.event_type,
                    &e.state_key,
                    ev.dup(),
                );
            },
            None => {},
        }
        proof {
            assert forall|p: (Seq<char>, Seq<char>)|
                #![trigger spec_pair_listed(pre_changes.profiles_to_delete, p)]
                spec_pair_listed(pre_changes.profiles_to_delete, p) implies spec_pair_listed(
                changes@.profiles_to_delete,
                p,
            ) by {
                let w = choose|w: int|
                    0 <= w < pre_changes.profiles_to_delete.len()
                        && pre_changes.profiles_to_delete[w] == p;
                assert(changes@.profiles_to_delete[w] == p);
            }
            assert forall|u: Seq<char>|
                #![trigger changes@.profiles.contains_key((room_id@, u))]
                changes@.profiles.contains_key((room_id@, u)) && (!old(changes)@.profiles.contains_key((room_id@, u)) || changes@.profiles[(room_id@, u)] != old(changes)@.profiles[(room_id@, u)]) implies exists|i: int|
                    0 <= i < idx + 1 && #[trigger] spec_state_event_self_profile(
                        events@[i].deep_view().parsed,
                        u,
                    ) by {
                if pre_changes.profiles.contains_key((room_id@, u)) && changes@.profiles[
                    (room_id@, u)
                ] == pre_changes.profiles[(room_id@, u)] {
                    assert(pre_changes.profiles.contains_key((room_id@, u)) && (!old(changes)@.profiles.contains_key((room_id@, u)) || pre_changes.profiles[(room_id@, u)]
                        != old(changes)@.profiles[(room_id@, u)]));
                    let i = choose|i: int|
                        0 <= i < idx && #[trigger] spec_state_event_self_profile(
                            events@[i].deep_view().parsed,
                            u,
                        );
                    assert(spec_state_event_self_profile(events@[i].deep_view().parsed, u));
                }
            }
        }
    }
}

/// Whether a state event is a member event the member sent about
/// themselves.
pub open spec fn spec_state_event_self_profile(
    parsed: Option<crate::events::StateEventModelV>,
    u: Seq<char>,
) -> bool {
    match parsed {
        Some(e) => e.content is Member && e.state_key == u && e.sender == u,
        _ => false,
    }
}

/// Whether a state event invites its subject.
pub open spec fn spec_state_event_invites(
    parsed: Option<crate::events::StateEventModelV>,
) -> bool {
    match parsed {
        Some(e) => crate::timeline::spec_member_content_is_invite(e.content),
        _ => false,
    }
}

/// The state key of a parsed state event; arbitrary elsewhere.
pub open spec fn spec_state_event_key(
    parsed: Option<crate::events::StateEventModelV>,
) -> Seq<char> {
    match parsed {
        Some(e) => e.state_key,
        _ => arbitrary(),
    }
}

/// The room summary after folding a prefix of stripped state events.
pub open spec fn spec_folded_stripped(
    info: RoomInfoV,
    events: Seq<StateEventInput>,
    n: int,
) -> RoomInfoV
    decreases n,
{
    if n <= 0 {
        info
    } else {
        let prev = spec_folded_stripped(info, events, n - 1);
        match events[n - 1].parsed {
            Some(e) => RoomInfo::spec_applied_state_event(prev, e.deep_view()),
            None => prev,
        }
    }
}

/// Fold the stripped state of an invited or knocked room: every event lands
/// in the room summary and the pending stripped state; push actions are then
/// computed against the post-folded view, so that the context is complete.
pub fn handle_invited_state(
    store: &StateStore,
    room_id: &String,
    own_user: &String,
    events: &Vec<StateEventInput>,
    ruleset: &ruma_common::push::Ruleset,
    room_info: &mut RoomInfo,
    changes: &mut StateChanges,
    notifications: &mut Vec<(String, NotificationModel)>,
)
    requires
        old(changes).wf(),
        store.wf(),
    ensures
        final(changes).wf(),
        final(room_info).deep_view() == spec_folded_stripped(
            old(room_info).deep_view(),
            events@,
            events@.len() as int,
        ),
        // every parsed stripped event is recorded under (room, type, key)
        final(changes)@.stripped_state == spec_folded_state_events(
            old(changes)@.stripped_state,
            room_id@,
            events@,
            events@.len() as int,
        ),
        final(changes)@.account_data == old(changes)@.account_data,
        final(changes)@.state == old(changes)@.state,
        final(changes)@.room_account_data == old(changes)@.room_account_data,
        final(changes)@.presence == old(changes)@.presence,
        final(changes)@.receipts == old(changes)@.receipts,
        final(changes)@.room_infos == old(changes)@.room_infos,
        final(changes)@.redactions == old(changes)@.redactions,
        final(changes)@.profiles == old(changes)@.profiles,
        final(changes)@.profiles_to_delete == old(changes)@.profiles_to_delete,
        final(changes)@.sync_token == old(changes)@.sync_token,
        final(notifications)@.len() >= old(notifications)@.len(),
        forall|i: int|
            #![auto]
            0 <= i < old(notifications)@.len() ==> final(notifications)@[i] == old(notifications)@[i],
        forall|i: int|
            #![auto]
            old(notifications)@.len() <= i < final(notifications)@.len() ==> final(notifications)@[i].0@ == room_id@ && final(notifications)@[i].1.actions.notify,
{
    let n = events.len();
    for idx in 0..n
        invariant
            n == events@.len(),
            changes.wf(),
            room_info.deep_view() == spec_folded_stripped(
                old(room_info).deep_view(),
                events@,
                idx as int,
            ),
            changes@.stripped_state == spec_folded_state_events(
                old(changes)@.stripped_state,
                room_id@,
                events@,
                idx as int,
            ),
            changes@.account_data == old(changes)@.account_data,
            changes@.state == old(changes)@.state,
            changes@.room_account_data == old(changes)@.room_account_data,
            changes@.presence == old(changes)@.presence,
            changes@.receipts == old(changes)@.receipts,
            changes@.room_infos == old(changes)@.room_infos,
            changes@.redactions == old(changes)@.redactions,
            changes@.profiles == old(changes)@.profiles,
            changes@.profiles_to_delete == old(changes)@.profiles_to_delete,
            changes@.sync_token == old(changes)@.sync_token,
    {
        let ev = &events[idx];
        match &ev.parsed {
            Some(e) => {
                room_info.handle_state_event(e);
                changes.add_stripped_state_event(
                    room_id,
                    &e.event_type,
                    &e.state_key,
                    ev.dup(),
                );
            },
            None => {},
        }
    }
    // Push actions, with the context computed from the post-folded view.
    let ctx = get_push_room_context(store, changes, room_id, own_user, room_info);
    if let Some(ctx) = ctx {
        if let Some(ruma_ctx) = crate::push::build_room_ctx_for(&ctx) {
            for idx in 0..n
                invariant
                    n == events@.len(),
                    notifications@.len() >= old(notifications)@.len(),
                    forall|i: int|
                        #![auto]
                        0 <= i < old(notifications)@.len() ==> notifications@[i] == old(notifications)@[i],
                    forall|i: int|
                        #![auto]
                        old(notifications)@.len() <= i < notifications@.len()
                            ==> notifications@[i].0@ == room_id@
                            && notifications@[i].1.actions.notify,
            {
                let ev = &events[idx];
                if ev.parsed.is_some() {
                    let push = crate::push::evaluate_push(ruleset, &ruma_ctx, &ev.raw);
                    if push.notify {
                        notifications.push(
                            (
                                room_id.clone(),
                                NotificationModel { actions: push, raw_event: ev.raw.clone() },
                            ),
                        );
                    }
                }
            }
        }
    }
}

/// The pending room account data after folding a prefix of events: every
/// parsed event lands under (room, type), later ones winning.
pub open spec fn spec_folded_room_account_data(
    m: Map<(Seq<char>, Seq<char>), crate::events::RoomAccountDataEventV>,
    room: Seq<char>,
    events: Seq<RoomAccountDataEvent>,
    n: int,
) -> Map<(Seq<char>, Seq<char>), crate::events::RoomAccountDataEventV>
    decreases n,
{
    if n <= 0 {
        m
    } else {
        let prev = spec_folded_room_account_data(m, room, events, n - 1);
        match events[n - 1].parsed {
            Some(_) => prev.insert((room, events[n - 1].event_type@), events[n - 1].deep_view()),
            None => prev,
        }
    }
}

/// The (unread marker, notable tags, marker-ever-flipped) triple after
/// folding a prefix of room account-data events.
pub open spec fn spec_folded_room_flags(
    flags: (bool, crate::room::NotableTags, bool),
    events: Seq<RoomAccountDataEvent>,
    n: int,
) -> (bool, crate::room::NotableTags, bool)
    decreases n,
{
    if n <= 0 {
        flags
    } else {
        let p = spec_folded_room_flags(flags, events, n - 1);
        match events[n - 1].parsed {
            Some(c) => match c {
                RoomAccountDataContent::MarkedUnread { unread } => (unread, p.1, p.2 || p.0
                    != unread),
                RoomAccountDataContent::UnstableMarkedUnread { unread } => (unread, p.1, p.2
                    || p.0 != unread),
                RoomAccountDataContent::Tag { favourite, low_priority } => (
                    p.0,
                    crate::room::NotableTags { favourite, low_priority },
                    p.2,
                ),
                RoomAccountDataContent::Other => p,
            },
            None => p,
        }
    }
}

/// Whether an event touches the unread marker or the tags.
pub open spec fn spec_is_flag_event(e: RoomAccountDataEvent) -> bool {
    match e.parsed {
        Some(c) => !(c is Other),
        None => false,
    }
}

pub open spec fn spec_has_flag_event(events: Seq<RoomAccountDataEvent>, n: int) -> bool {
    exists|i: int| #![trigger events[i]] 0 <= i < n && spec_is_flag_event(events[i])
}

/// The summary the account-data fold starts from: the pending one, else a
/// copy of the stored room's.
pub open spec fn spec_room_flags_base(
    changes: Map<Seq<char>, RoomInfoV>,
    store: StateStoreV,
    room: Seq<char>,
) -> RoomInfoV {
    if changes.contains_key(room) {
        changes[room]
    } else if store.rooms.contains_key(room) {
        store.rooms[room].info
    } else {
        arbitrary()
    }
}

/// Fold a room's account-data events: every parsed event is recorded under
/// its type, unread markers and tags land on the room summary in the
/// pending changes (falling back to the stored room), and a change of the
/// unread marker's value is noted as a notable reason.
#[verifier::rlimit(100)]
pub fn handle_room_account_data(
    store: &StateStore,
    room_id: &String,
    events: &Vec<RoomAccountDataEvent>,
    changes: &mut StateChanges,
    reasons: &mut KMap<String, NotableReasons>,
)
    requires
        old(changes).wf(),
        old(reasons).wf(),
        store.wf(),
    ensures
        final(changes).wf(),
        final(reasons).wf(),
        final(changes)@.account_data == old(changes)@.account_data,
        final(changes)@.state == old(changes)@.state,
        final(changes)@.stripped_state == old(changes)@.stripped_state,
        final(changes)@.presence == old(changes)@.presence,
        final(changes)@.receipts == old(changes)@.receipts,
        final(changes)@.redactions == old(changes)@.redactions,
        final(changes)@.profiles == old(changes)@.profiles,
        final(changes)@.profiles_to_delete == old(changes)@.profiles_to_delete,
        final(changes)@.ambiguity_maps == old(changes)@.ambiguity_maps,
        final(changes)@.sync_token == old(changes)@.sync_token,
        // every parsed event is recorded under (room, type)
        final(changes)@.room_account_data == spec_folded_room_account_data(
            old(changes)@.room_account_data,
            room_id@,
            events@,
            events@.len() as int,
        ),
        // the summary takes the folded unread marker and tags — exactly
        // when a summary was found and a marker or tag event arrived
        ({
            let has_summary = old(changes)@.room_infos.contains_key(room_id@)
                || store@.rooms.contains_key(room_id@);
            let base = spec_room_flags_base(old(changes)@.room_infos, store@, room_id@);
            let folded = spec_folded_room_flags(
                (base.is_marked_unread, base.notable_tags, false),
                events@,
                events@.len() as int,
            );
            &&& (!(has_summary && spec_has_flag_event(events@, events@.len() as int)) ==> final(changes)@.room_infos == old(changes)@.room_infos)
            &&& ((has_summary && spec_has_flag_event(events@, events@.len() as int)) ==> final(changes)@.room_infos == old(changes)@.room_infos.insert(
                room_id@,
                (RoomInfoV { is_marked_unread: folded.0, notable_tags: folded.1, ..base }),
            ))
            // a manual marker change is notable, once
            &&& ((has_summary && folded.2) ==> final(reasons)@ == old(reasons)@.insert(
                room_id@,
                (NotableReasons {
                    unread_marker: true,
                    ..(if old(reasons)@.contains_key(room_id@) {
                        old(reasons)@[room_id@]
                    } else {
                        NotableReasons::spec_none()
                    })
                }),
            ))
            &&& (!(has_summary && folded.2) ==> final(reasons)@ == old(reasons)@)
        }),
{
    let ghost has_summary = old(changes)@.room_infos.contains_key(room_id@)
        || store@.rooms.contains_key(room_id@);
    let ghost base = spec_room_flags_base(old(changes)@.room_infos, store@, room_id@);
    let ghost start_flags = (base.is_marked_unread, base.notable_tags, false);
    let ghost old_reason: NotableReasons = if old(reasons)@.contains_key(room_id@) {
        old(reasons)@[room_id@]
    } else {
        NotableReasons::spec_none()
    };
    let n = events.len();
    for idx in 0..n
        invariant
            n == events@.len(),
            changes.wf(),
            reasons.wf(),
            store.wf(),
            has_summary == (old(changes)@.room_infos.contains_key(room_id@)
                || store@.rooms.contains_key(room_id@)),
            base == spec_room_flags_base(old(changes)@.room_infos, store@, room_id@),
            start_flags == (base.is_marked_unread, base.notable_tags, false),
            old_reason == (if old(reasons)@.contains_key(room_id@) {
                old(reasons)@[room_id@]
            } else {
                NotableReasons::spec_none()
            }),
            changes@.account_data == old(changes)@.account_data,
            changes@.state == old(changes)@.state,
            changes@.stripped_state == old(changes)@.stripped_state,
            changes@.presence == old(changes)@.presence,
            changes@.receipts == old(changes)@.receipts,
            changes@.redactions == old(changes)@.redactions,
            changes@.profiles == old(changes)@.profiles,
            changes@.profiles_to_delete == old(changes)@.profiles_to_delete,
            changes@.ambiguity_maps == old(changes)@.ambiguity_maps,
            changes@.sync_token == old(changes)@.sync_token,
            changes@.room_account_data == spec_folded_room_account_data(
                old(changes)@.room_account_data,
                room_id@,
                events@,
                idx as int,
            ),
            !(has_summary && spec_has_flag_event(events@, idx as int)) ==> changes@.room_infos
                == old(changes)@.room_infos,
            (has_summary && spec_has_flag_event(events@, idx as int)) ==> changes@.room_infos
                == old(changes)@.room_infos.insert(
                room_id@,
                (RoomInfoV {
                    is_marked_unread: spec_folded_room_flags(start_flags, events@, idx as int).0,
                    notable_tags: spec_folded_room_flags(start_flags, events@, idx as int).1,
                    ..base
                }),
            ),
            (has_summary && spec_folded_room_flags(start_flags, events@, idx as int).2)
                ==> reasons@ == old(reasons)@.insert(
                room_id@,
                (NotableReasons { unread_marker: true, ..old_reason }),
            ),
            !(has_summary && spec_folded_room_flags(start_flags, events@, idx as int).2)
                ==> reasons@ == old(reasons)@,
    {
        let ev = &events[idx];
        let ghost prev_flags = spec_folded_room_flags(start_flags, events@, idx as int);
        match &ev.parsed {
            Some(content) => {
                changes.add_room_account_data(room_id, ev.dup());
                proof {
                    assert(events@[idx as int].deep_view().event_type
                        == events@[idx as int].event_type@);
                }
                let unread: Option<bool> = match content {
                    RoomAccountDataContent::MarkedUnread { unread } => Some(*unread),
                    RoomAccountDataContent::UnstableMarkedUnread { unread } => Some(*unread),
                    _ => None,
                };
                let tags: Option<(bool, bool)> = match content {
                    RoomAccountDataContent::Tag { favourite, low_priority } => Some(
                        (*favourite, *low_priority),
                    ),
                    _ => None,
                };
                if unread.is_some() || tags.is_some() {
                    proof {
                        assert(spec_is_flag_event(events@[idx as int]));
                        assert(spec_has_flag_event(events@, idx as int + 1));
                    }
                    // Find the room summary to update: the pending changes
                    // first, else a copy of the stored room's.
                    let found: Option<RoomInfo> = match changes.room_infos.get(room_id) {
                        Some(i) => Some(i.dup()),
                        None => match store.room(room_id) {
                            Some(room) => Some(room.info.dup()),
                            None => None,
                        },
                    };
                    if let Some(mut info) = found {
                        proof {
                            assert(has_summary);
                            if spec_has_flag_event(events@, idx as int) {
                                assert(changes@.room_infos.contains_key(room_id@));
                            } else {
                                assert forall|w: int|
                                    0 <= w < idx implies !spec_is_flag_event(
                                    #[trigger] events@[w],
                                ) by {
                                    if spec_is_flag_event(events@[w]) {
                                        assert(spec_has_flag_event(events@, idx as int));
                                    }
                                }
                                lemma_no_flags_fold(start_flags, events@, idx as int);
                                assert(prev_flags == start_flags);
                                if old(changes)@.room_infos.contains_key(room_id@) {
                                    assert(info.deep_view() == base);
                                } else {
                                    assert(info.deep_view() == store@.rooms[room_id@].info);
                                    assert(info.deep_view() == base);
                                }
                                assert(info.deep_view() =~= (RoomInfoV {
                                    is_marked_unread: prev_flags.0,
                                    notable_tags: prev_flags.1,
                                    ..base
                                }));
                            }
                            assert(info.deep_view() == (RoomInfoV {
                                is_marked_unread: prev_flags.0,
                                notable_tags: prev_flags.1,
                                ..base
                            }));
                        }
                        if let Some(unread) = unread {
                            if info.is_marked_unread != unread {
                                // A manual marker change is notable.
                                let prev = match reasons.get(room_id) {
                                    Some(r) => *r,
                                    None => NotableReasons::none(),
                                };
                                proof {
                                    assert((NotableReasons { unread_marker: true, ..prev })
                                        == (NotableReasons {
                                        unread_marker: true,
                                        ..old_reason
                                    }));
                                }
                                reasons.insert(
                                    room_id.clone(),
                                    NotableReasons { unread_marker: true, ..prev },
                                );
                            }
                            info.is_marked_unread = unread;
                        }
                        if let Some((favourite, low_priority)) = tags {
                            info.notable_tags = crate::room::NotableTags {
                                favourite,
                                low_priority,
                            };
                        }
                        let ghost v = info.deep_view();
                        changes.add_room(room_id, info);
                        proof {
                            let ghost next_flags = spec_folded_room_flags(
                                start_flags,
                                events@,
                                idx as int + 1,
                            );
                            assert(v == (RoomInfoV {
                                is_marked_unread: next_flags.0,
                                notable_tags: next_flags.1,
                                ..base
                            }));
                            assert(changes@.room_infos =~= old(changes)@.room_infos.insert(
                                room_id@,
                                v,
                            ));
                        }
                    } else {
                        proof {
                            assert(!has_summary);
                        }
                    }
                } else {
                    proof {
                        lemma_flag_prefix_stable(events@, idx as int);
                    }
                }
            },
            None => {
                proof {
                    lemma_flag_prefix_stable(events@, idx as int);
                }
            },
        }
    }
}

/// Folding a prefix without flag events leaves the flags alone.
pub proof fn lemma_no_flags_fold(
    flags: (bool, crate::room::NotableTags, bool),
    events: Seq<RoomAccountDataEvent>,
    n: int,
)
    requires
        forall|i: int| 0 <= i < n ==> !spec_is_flag_event(#[trigger] events[i]),
    ensures
        spec_folded_room_flags(flags, events, n) == flags,
    decreases n,
{
    if n > 0 {
        lemma_no_flags_fold(flags, events, n - 1);
    }
}

/// Growing the prefix by an event that touches no flag leaves the
/// flag-event question as it was.
pub proof fn lemma_flag_prefix_stable(events: Seq<RoomAccountDataEvent>, idx: int)
    requires
        0 <= idx < events.len(),
        !spec_is_flag_event(events[idx]),
    ensures
        spec_has_flag_event(events, idx + 1) == spec_has_flag_event(events, idx),
{
    if spec_has_flag_event(events, idx + 1) {
        let w = choose|w: int| #![trigger events[w]] 0 <= w < idx + 1 && spec_is_flag_event(
            events[w],
        );
        assert(w < idx);
        assert(spec_has_flag_event(events, idx));
    }
}

/// What one sync response says a room's lifecycle state is: the bucket it
/// appeared in most recently, knocks over invites over leaves over joins.
pub open spec fn spec_in_join(response: &SyncInput, rid: Seq<char>) -> bool {
    spec_in_join_prefix(response, rid, response.join@.len() as int)
}

pub open spec fn spec_in_leave(response: &SyncInput, rid: Seq<char>) -> bool {
    spec_in_leave_prefix(response, rid, response.leave@.len() as int)
}

pub open spec fn spec_in_invite(response: &SyncInput, rid: Seq<char>) -> bool {
    spec_in_invite_prefix(response, rid, response.invite@.len() as int)
}

pub open spec fn spec_in_knock(response: &SyncInput, rid: Seq<char>) -> bool {
    spec_in_knock_prefix(response, rid, response.knock@.len() as int)
}

pub open spec fn spec_last_bucket_state(response: &SyncInput, rid: Seq<char>) -> Option<RoomState> {
    if spec_in_knock(response, rid) {
        Some(RoomState::Knocked)
    } else if spec_in_invite(response, rid) {
        Some(RoomState::Invited)
    } else if spec_in_leave(response, rid) {
        Some(RoomState::Left)
    } else if spec_in_join(response, rid) {
        Some(RoomState::Joined)
    } else {
        None
    }
}

/// Whether the response's join bucket delivers this room a limited timeline.
pub open spec fn spec_join_limited(response: &SyncInput, w: int) -> bool {
    response.join@[w].1.timeline.limited
}

/// The base room summary a bucket starts from: the stored room's, or a
/// fresh one in the bucket's state.
fn base_info_for(store: &StateStore, room_id: &String, state: RoomState) -> (r: RoomInfo)
    requires
        store.wf(),
    ensures
        r.deep_view() == (if store@.rooms.contains_key(room_id@) {
            store@.rooms[room_id@].info
        } else {
            RoomInfo::spec_new(room_id@, state)
        }),
{
    match store.room(room_id) {
        Some(room) => room.info.dup(),
        None => RoomInfo::new(room_id.clone(), state),
    }
}

/// The stored encrypted latest-event candidates of a room, or none.
fn latest_candidates_for(store: &StateStore, room_id: &String) -> (r: Vec<String>)
    requires
        store.wf(),
    ensures
        r.deep_view() == (if store@.rooms.contains_key(room_id@) {
            store@.rooms[room_id@].latest_encrypted_events
        } else {
            Seq::<Seq<char>>::empty()
        }),
{
    match store.room(room_id) {
        Some(room) => room.latest_encrypted_events.dup(),
        None => {
            let r: Vec<String> = Vec::new();
            proof {
                assert(r.deep_view() =~= Seq::<Seq<char>>::empty());
            }
            r
        },
    }
}

/// Whether the stored room is already known encrypted.
pub open spec fn spec_store_room_encrypted(store: StateStoreV, rid: Seq<char>) -> bool {
    store.rooms.contains_key(rid) && store.rooms[rid].info.encryption
        == crate::room::EncryptionState::Encrypted
}

/// Whether a user is an active member of the room, going by the store.
pub open spec fn spec_store_active_member(
    store: StateStoreV,
    rid: Seq<char>,
    u: Seq<char>,
) -> bool {
    store.state.contains_key((rid, "m.room.member"@, u)) && crate::store::spec_member_matches(
        store.state[(rid, "m.room.member"@, u)],
        MembershipsFilter { join: true, invite: true, leave: false, ban: false, knock: false },
    )
}

/// Whether a crypto command tracks the user.
pub open spec fn spec_command_tracks(c: &crate::response::CryptoCommand, u: Seq<char>) -> bool {
    match c {
        crate::response::CryptoCommand::UpdateTrackedUsers { users } => exists|j: int|
            0 <= j < users@.len() && (#[trigger] users@[j])@ == u,
        _ => false,
    }
}

/// Whether a command tracks every store-known active member of the room.
pub open spec fn spec_covers_room(
    c: crate::response::CryptoCommand,
    store: StateStoreV,
    rid: Seq<char>,
) -> bool {
    forall|u: Seq<char>|
        #![trigger spec_store_active_member(store, rid, u)]
        spec_store_active_member(store, rid, u) ==> spec_command_tracks(&c, u)
}

/// The members a joined-room slice of the response updates: the state
/// events' active members, then the timeline's member events folded in.
pub open spec fn spec_joined_batch_members(input: JoinedRoomInput) -> Set<Seq<char>> {
    crate::timeline::spec_folded_user_ids(
        spec_collected_members(Set::empty(), input.state@, input.state@.len() as int),
        input.timeline.events@,
        input.timeline.events@.len() as int,
        false,
    )
}

/// Whether a command tracks exactly the given member set.
pub open spec fn spec_tracks_exactly(
    c: crate::response::CryptoCommand,
    members: Set<Seq<char>>,
) -> bool {
    match c {
        crate::response::CryptoCommand::UpdateTrackedUsers { users } => forall|u: Seq<char>|
            #![auto]
            crate::store::spec_contains_str(users@, u) == members.contains(u),
        _ => false,
    }
}

/// Whether a command list holds, at or after `from`, a tracking command
/// covering every store-known active member of the room.
pub open spec fn spec_has_bootstrap_command(
    commands: Seq<crate::response::CryptoCommand>,
    from: int,
    store: StateStoreV,
    rid: Seq<char>,
) -> bool {
    exists|ci: int|
        #![trigger commands[ci]]
        from <= ci < commands.len() && spec_covers_room(commands[ci], store, rid)
}

/// Process one joined room of a sync response.
#[verifier::rlimit(100)]
fn process_joined_room(
    store: &StateStore,
    room_id: &String,
    input: &JoinedRoomInput,
    requested: &crate::required_states::RequestedRequiredStates,
    ruleset: &ruma_common::push::Ruleset,
    crypto_enabled: bool,
    handle_verification_events: bool,
    own_user: &String,
    decryptions: &KMap<String, crate::events::DecryptionOutcome>,
    changes: &mut StateChanges,
    ambiguity: &mut AmbiguityCache,
    notifications: &mut Vec<(String, NotificationModel)>,
    crypto_commands: &mut Vec<CryptoCommand>,
    reasons: &mut KMap<String, NotableReasons>,
    member_updates: &mut Vec<(String, Vec<String>)>,
    latest_writebacks: &mut Vec<(String, Vec<String>)>,
) -> (r: JoinedRoomUpdate)
    requires
        old(changes).wf(),
        old(ambiguity).wf(),
        old(reasons).wf(),
        store.wf(),
        decryptions.wf(),
        requested.wf(),
    ensures
        final(changes).wf(),
        final(ambiguity).wf(),
        final(reasons).wf(),
        exists|v: RoomInfoV|
            #![trigger old(changes)@.room_infos.insert(room_id@, v)]
            final(changes)@.room_infos == old(changes)@.room_infos.insert(room_id@, v)
                && v.state == RoomState::Joined && (input.timeline.limited
                ==> v.members_sync_status == MembersSyncStatus::Missing) && ((crypto_enabled
                && v.encryption == crate::room::EncryptionState::Encrypted
                && !spec_store_room_encrypted(store@, room_id@))
                ==> spec_has_bootstrap_command(
                final(crypto_commands)@,
                old(crypto_commands)@.len() as int,
                store@,
                room_id@,
            )) && ((crypto_enabled && v.encryption == crate::room::EncryptionState::Encrypted)
                ==> exists|ci: int|
                #![trigger final(crypto_commands)@[ci]]
                old(crypto_commands)@.len() <= ci < final(crypto_commands)@.len()
                    && spec_tracks_exactly(
                    final(crypto_commands)@[ci],
                    spec_joined_batch_members(*input),
                )),
        final(changes)@.account_data == old(changes)@.account_data,
        final(changes)@.sync_token == old(changes)@.sync_token,
        final(changes)@.presence == old(changes)@.presence,
        // the room's receipts land in the change set
        final(changes)@.receipts == spec_folded_receipts_room(
            old(changes)@.receipts,
            room_id@,
            input.ephemeral@,
            input.ephemeral@.len() as int,
        ),
        final(crypto_commands)@.len() >= old(crypto_commands)@.len(),
        forall|i: int|
            #![auto]
            0 <= i < old(crypto_commands)@.len() ==> final(crypto_commands)@[i] == old(
                crypto_commands,
            )@[i],
        r.timeline.limited == input.timeline.limited,
        r.timeline.events@.len() == input.timeline.events@.len(),
        forall|i: int|
            #![trigger r.timeline.events@[i]]
            0 <= i < r.timeline.events@.len() ==> {
                let ev = input.timeline.events@[i].deep_view();
                &&& r.timeline.events@[i].raw@ == crate::timeline::spec_out_raw(
                    ev,
                    crypto_enabled,
                    decryptions@,
                )
                &&& r.timeline.events@[i].origin == crate::timeline::spec_out_origin(
                    ev,
                    crypto_enabled,
                    decryptions@,
                )
            },
{
    let mut info = base_info_for(store, room_id, RoomState::Joined);
    info.mark_as_joined();
    info.update_from_summary(&input.summary_joined_count, &input.summary_invited_count);
    info.set_prev_batch(&input.timeline.prev_batch);
    info.mark_state_fully_synced();
    info.handle_encryption_state(requested.for_room(room_id));

    ambiguity.seed_room(store, room_id);
    let mut user_ids = StrSet::new();
    handle_state(room_id, &input.state, &mut user_ids, &mut info, changes, ambiguity);
    member_updates.push((room_id.clone(), user_ids.to_vec()));

    // Of the ephemeral events, only receipts are retained.
    let en = input.ephemeral.len();
    for i in 0..en
        invariant
            en == input.ephemeral@.len(),
            changes.wf(),
            changes@.account_data == old(changes)@.account_data,
            changes@.sync_token == old(changes)@.sync_token,
            changes@.presence == old(changes)@.presence,
            changes@.room_infos == old(changes)@.room_infos,
            changes@.receipts == spec_folded_receipts_room(
                old(changes)@.receipts,
                room_id@,
                input.ephemeral@,
                i as int,
            ),
    {
        match &input.ephemeral[i].parsed {
            Some(crate::events::EphemeralKind::Receipt) => {
                changes.add_receipts(room_id, input.ephemeral[i].raw.clone());
            },
            _ => {},
        }
    }

    if input.timeline.limited {
        info.mark_members_missing();
    }

    let mut latest_list = latest_candidates_for(store, room_id);
    let events_out = crate::timeline::handle_timeline(
        store,
        room_id,
        own_user,
        &input.timeline.events,
        false,
        ruleset,
        crypto_enabled,
        handle_verification_events,
        decryptions,
        &mut user_ids,
        &mut info,
        &mut latest_list,
        changes,
        notifications,
        crypto_commands,
        ambiguity,
    );
    latest_writebacks.push((room_id.clone(), latest_list));

    let ghost v_info = info.deep_view();
    changes.add_room(room_id, info);
    handle_room_account_data(store, room_id, &input.account_data, changes, reasons);

    // The account-data fold may have refreshed the summary: fetch it again.
    let mut refetched: RoomInfo = match changes.room_infos.get(room_id) {
        Some(i) => i.dup(),
        None => unreached(),
    };
    proof {
        assert(refetched.deep_view().state == RoomState::Joined);
        assert(input.timeline.limited ==> refetched.deep_view().members_sync_status
            == MembersSyncStatus::Missing);
    }

    // A room that turned encrypted in this sync bootstraps device tracking
    // with every active member the store already knows, and then tracks the
    // members this batch updated.
    let ghost bootstrap_at: int = crypto_commands@.len() as int;
    if crypto_enabled && refetched.is_encrypted() {
        let pre_encrypted = match store.room(room_id) {
            Some(room) => room.info.is_encrypted(),
            None => false,
        };
        if !pre_encrypted {
            let known = store.get_user_ids(
                room_id,
                MembershipsFilter::active(),
            );
            crypto_commands.push(CryptoCommand::UpdateTrackedUsers { users: known });
            proof {
                assert forall|u: Seq<char>|
                    #![trigger spec_store_active_member(store@, room_id@, u)]
                    spec_store_active_member(store@, room_id@, u) implies spec_command_tracks(
                    &crypto_commands@[bootstrap_at],
                    u,
                ) by {
                    match &crypto_commands@[bootstrap_at] {
                        CryptoCommand::UpdateTrackedUsers { users } => {
                            assert(crate::store::spec_contains_str(users@, u));
                            let w = choose|w: int| 0 <= w < users@.len() && users@[w]@ == u;
                            assert(users@[w]@ == u);
                        },
                        _ => {
                            assert(false);
                        },
                    }
                }
                assert(spec_covers_room(crypto_commands@[bootstrap_at], store@, room_id@));
            }
        }
        let ghost mid_commands = crypto_commands@;
        let listed = user_ids.to_vec();
        proof {
            assert(user_ids@ == spec_joined_batch_members(*input));
            assert forall|u: Seq<char>| #![auto]
                crate::store::spec_contains_str(listed@, u) == user_ids@.contains(u) by {
                StrSet::lemma_set_contains(user_ids.items@, u);
                if crate::store::spec_contains_str(listed@, u) {
                    let w = choose|w: int| 0 <= w < listed@.len() && listed@[w]@ == u;
                    assert(user_ids.items@[w]@ == u);
                }
                if user_ids@.contains(u) {
                    let w = choose|w: int|
                        0 <= w < user_ids.items@.len() && user_ids.items@[w]@ == u;
                    assert(listed@[w]@ == u);
                }
            }
        }
        let ghost batch_ci = crypto_commands@.len() as int;
        crypto_commands.push(CryptoCommand::UpdateTrackedUsers { users: listed });
        proof {
            assert(spec_tracks_exactly(
                crypto_commands@[batch_ci],
                spec_joined_batch_members(*input),
            ));
            if !spec_store_room_encrypted(store@, room_id@) {
                assert(crypto_commands@[bootstrap_at] == mid_commands[bootstrap_at]);
                assert(spec_covers_room(crypto_commands@[bootstrap_at], store@, room_id@));
                assert(spec_has_bootstrap_command(
                    crypto_commands@,
                    old(crypto_commands)@.len() as int,
                    store@,
                    room_id@,
                ));
            }
        }
    }

    refetched.update_notification_count(input.notification_counts);
    let ghost v_final = refetched.deep_view();
    changes.add_room(room_id, refetched);
    proof {
        assert(changes@.room_infos =~= old(changes)@.room_infos.insert(room_id@, v_final));
        assert(v_final.state == RoomState::Joined);
        assert(input.timeline.limited ==> v_final.members_sync_status
            == MembersSyncStatus::Missing);
        if crypto_enabled && v_final.encryption == crate::room::EncryptionState::Encrypted
            && !spec_store_room_encrypted(store@, room_id@) {
            assert(spec_has_bootstrap_command(
                crypto_commands@,
                old(crypto_commands)@.len() as int,
                store@,
                room_id@,
            ));
        }
    }

    let ambiguity_changes = ambiguity.take_changes_for_room(room_id);
    JoinedRoomUpdate {
        timeline: TimelineUpdate {
            limited: input.timeline.limited,
            prev_batch: input.timeline.prev_batch.dup(),
            events: events_out,
        },
        state: input.state.dup(),
        account_data: input.account_data.dup(),
        ephemeral: input.ephemeral.dup(),
        notification_counts: input.notification_counts,
        ambiguity_changes,
    }
}

/// Process one left room of a sync response.
fn process_left_room(
    store: &StateStore,
    room_id: &String,
    input: &LeftRoomInput,
    requested: &crate::required_states::RequestedRequiredStates,
    ruleset: &ruma_common::push::Ruleset,
    crypto_enabled: bool,
    handle_verification_events: bool,
    own_user: &String,
    decryptions: &KMap<String, crate::events::DecryptionOutcome>,
    changes: &mut StateChanges,
    ambiguity: &mut AmbiguityCache,
    notifications: &mut Vec<(String, NotificationModel)>,
    crypto_commands: &mut Vec<CryptoCommand>,
    reasons: &mut KMap<String, NotableReasons>,
    latest_writebacks: &mut Vec<(String, Vec<String>)>,
) -> (r: LeftRoomUpdate)
    requires
        old(changes).wf(),
        old(ambiguity).wf(),
        old(reasons).wf(),
        store.wf(),
        decryptions.wf(),
        requested.wf(),
    ensures
        final(changes).wf(),
        final(ambiguity).wf(),
        final(reasons).wf(),
        exists|v: RoomInfoV|
            #![trigger old(changes)@.room_infos.insert(room_id@, v)]
            final(changes)@.room_infos == old(changes)@.room_infos.insert(room_id@, v)
                && v.state == RoomState::Left,
        final(changes)@.account_data == old(changes)@.account_data,
        final(changes)@.sync_token == old(changes)@.sync_token,
        final(changes)@.presence == old(changes)@.presence,
        final(changes)@.receipts == old(changes)@.receipts,
        final(crypto_commands)@.len() >= old(crypto_commands)@.len(),
        forall|i: int|
            #![auto]
            0 <= i < old(crypto_commands)@.len() ==> final(crypto_commands)@[i] == old(
                crypto_commands,
            )@[i],
{
    let mut info = base_info_for(store, room_id, RoomState::Left);
    info.mark_as_left();
    info.mark_state_partially_synced();
    info.handle_encryption_state(requested.for_room(room_id));

    ambiguity.seed_room(store, room_id);
    let mut user_ids = StrSet::new();
    handle_state(room_id, &input.state, &mut user_ids, &mut info, changes, ambiguity);

    let mut latest_list = latest_candidates_for(store, room_id);
    let events_out = crate::timeline::handle_timeline(
        store,
        room_id,
        own_user,
        &input.timeline.events,
        false,
        ruleset,
        crypto_enabled,
        handle_verification_events,
        decryptions,
        &mut user_ids,
        &mut info,
        &mut latest_list,
        changes,
        notifications,
        crypto_commands,
        ambiguity,
    );
    latest_writebacks.push((room_id.clone(), latest_list));

    let ghost v_info = info.deep_view();
    changes.add_room(room_id, info);
    handle_room_account_data(store, room_id, &input.account_data, changes, reasons);
    proof {
        assert(changes@.room_infos.contains_key(room_id@));
        let v = changes@.room_infos[room_id@];
        assert(changes@.room_infos =~= old(changes)@.room_infos.insert(room_id@, v));
        assert(v.state == RoomState::Left);
    }

    let ambiguity_changes = ambiguity.take_changes_for_room(room_id);
    LeftRoomUpdate {
        timeline: TimelineUpdate {
            limited: input.timeline.limited,
            prev_batch: input.timeline.prev_batch.dup(),
            events: events_out,
        },
        state: input.state.dup(),
        account_data: input.account_data.dup(),
        ambiguity_changes,
    }
}

/// Process one invited or knocked room of a sync response: its stripped
/// state folds into the summary, and push actions are computed from the
/// post-folded view.
fn process_stripped_room(
    store: &StateStore,
    room_id: &String,
    input: &InvitedRoomInput,
    state: RoomState,
    ruleset: &ruma_common::push::Ruleset,
    own_user: &String,
    changes: &mut StateChanges,
    notifications: &mut Vec<(String, NotificationModel)>,
)
    requires
        old(changes).wf(),
        store.wf(),
        state == RoomState::Invited || state == RoomState::Knocked,
    ensures
        final(changes).wf(),
        exists|v: RoomInfoV|
            #![trigger old(changes)@.room_infos.insert(room_id@, v)]
            final(changes)@.room_infos == old(changes)@.room_infos.insert(room_id@, v) && v.state
                == state,
        final(changes)@.account_data == old(changes)@.account_data,
        final(changes)@.sync_token == old(changes)@.sync_token,
        final(changes)@.presence == old(changes)@.presence,
        final(changes)@.receipts == old(changes)@.receipts,
{
    let mut info = base_info_for(store, room_id, state);
    info.set_state(state);
    info.mark_state_fully_synced();
    let ghost pre_fold = info.deep_view();
    handle_invited_state(
        store,
        room_id,
        own_user,
        &input.events,
        ruleset,
        &mut info,
        changes,
        notifications,
    );
    proof {
        lemma_folded_stripped_keeps_lifecycle(pre_fold, input.events@, input.events@.len() as int);
    }
    let ghost v_info = info.deep_view();
    changes.add_room(room_id, info);
    proof {
        assert(changes@.room_infos =~= old(changes)@.room_infos.insert(room_id@, v_info));
    }
}

/// The stripped fold never changes the lifecycle state or the sync
/// statuses.
pub proof fn lemma_folded_stripped_keeps_lifecycle(
    info: RoomInfoV,
    events: Seq<StateEventInput>,
    n: int,
)
    ensures
        spec_folded_stripped(info, events, n).state == info.state,
        spec_folded_stripped(info, events, n).state_sync_status == info.state_sync_status,
        spec_folded_stripped(info, events, n).members_sync_status == info.members_sync_status,
        spec_folded_stripped(info, events, n).room_id == info.room_id,
    decreases n,
{
    if n > 0 {
        lemma_folded_stripped_keeps_lifecycle(info, events, n - 1);
    }
}

/// Whether a prefix of a bucket names the room.
pub open spec fn spec_in_join_prefix(response: &SyncInput, rid: Seq<char>, n: int) -> bool {
    exists|w: int| #![trigger response.join@[w]] 0 <= w < n && response.join@[w].0@ == rid
}

pub open spec fn spec_in_leave_prefix(response: &SyncInput, rid: Seq<char>, n: int) -> bool {
    exists|w: int| #![trigger response.leave@[w]] 0 <= w < n && response.leave@[w].0@ == rid
}

pub open spec fn spec_in_invite_prefix(response: &SyncInput, rid: Seq<char>, n: int) -> bool {
    exists|w: int| #![trigger response.invite@[w]] 0 <= w < n && response.invite@[w].0@ == rid
}

pub open spec fn spec_in_knock_prefix(response: &SyncInput, rid: Seq<char>, n: int) -> bool {
    exists|w: int| #![trigger response.knock@[w]] 0 <= w < n && response.knock@[w].0@ == rid
}

/// The room state the processed prefixes dictate: the latest bucket wins.
pub open spec fn spec_prefix_state(
    response: &SyncInput,
    rid: Seq<char>,
    jn: int,
    ln: int,
    inn: int,
    kn: int,
) -> Option<RoomState> {
    if spec_in_knock_prefix(response, rid, kn) {
        Some(RoomState::Knocked)
    } else if spec_in_invite_prefix(response, rid, inn) {
        Some(RoomState::Invited)
    } else if spec_in_leave_prefix(response, rid, ln) {
        Some(RoomState::Left)
    } else if spec_in_join_prefix(response, rid, jn) {
        Some(RoomState::Joined)
    } else {
        None
    }
}

/// What the pending changes must say about a room whose latest bucket in
/// the processed prefixes is the join bucket.
pub open spec fn spec_join_claim(
    response: &SyncInput,
    rid: Seq<char>,
    jn: int,
    infos: Map<Seq<char>, RoomInfoV>,
    commands: Seq<CryptoCommand>,
    pre_store: StateStoreV,
    crypto_enabled: bool,
) -> bool {
    &&& infos.contains_key(rid)
    &&& infos[rid].state == RoomState::Joined
    &&& (exists|w: int|
        #![trigger response.join@[w]]
        0 <= w < jn && response.join@[w].0@ == rid && (response.join@[w].1.timeline.limited
            ==> infos[rid].members_sync_status == MembersSyncStatus::Missing) && (forall|w2: int|
            #![trigger response.join@[w2]]
            w < w2 < jn ==> response.join@[w2].0@ != rid) && ((crypto_enabled
            && infos[rid].encryption == crate::room::EncryptionState::Encrypted) ==> exists|
            ci: int,
        |
            #![trigger commands[ci]]
            0 <= ci < commands.len() && spec_tracks_exactly(
                commands[ci],
                spec_joined_batch_members(response.join@[w].1),
            )))
    &&& ((crypto_enabled && !spec_store_room_encrypted(pre_store, rid) && infos[rid].encryption
        == crate::room::EncryptionState::Encrypted) ==> spec_has_bootstrap_command(
        commands,
        0,
        pre_store,
        rid,
    ))
}

/// The invariant the bucket loops maintain: every room of the processed
/// prefixes has a pending summary in its latest bucket's state, joined rooms
/// with their member status and tracking command.
pub open spec fn spec_sync_claim(
    response: &SyncInput,
    rid: Seq<char>,
    jn: int,
    ln: int,
    inn: int,
    kn: int,
    infos: Map<Seq<char>, RoomInfoV>,
    commands: Seq<CryptoCommand>,
    pre_store: StateStoreV,
    crypto_enabled: bool,
) -> bool {
    match spec_prefix_state(response, rid, jn, ln, inn, kn) {
        Some(st) => if st == RoomState::Joined {
            spec_join_claim(response, rid, jn, infos, commands, pre_store, crypto_enabled)
        } else {
            infos.contains_key(rid) && infos[rid].state == st
        },
        None => true,
    }
}

/// The global account data a response folds in, keyed by type, later events
/// winning.
pub open spec fn spec_folded_account_data(events: Seq<AccountDataEvent>, n: int) -> Map<
    Seq<char>,
    AccountDataEventV,
>
    decreases n,
{
    if n <= 0 {
        Map::empty()
    } else {
        spec_folded_account_data(events, n - 1).insert(
            events[n - 1].event_type@,
            events[n - 1].deep_view(),
        )
    }
}

/// The pending receipts after folding a prefix of one room's ephemeral
/// events: only receipts are retained, the last one winning.
pub open spec fn spec_folded_receipts_room(
    m: Map<Seq<char>, Seq<char>>,
    room: Seq<char>,
    ephemeral: Seq<crate::events::EphemeralEventInput>,
    n: int,
) -> Map<Seq<char>, Seq<char>>
    decreases n,
{
    if n <= 0 {
        m
    } else {
        let prev = spec_folded_receipts_room(m, room, ephemeral, n - 1);
        match ephemeral[n - 1].parsed {
            Some(crate::events::EphemeralKind::Receipt) => prev.insert(
                room,
                ephemeral[n - 1].raw@,
            ),
            _ => prev,
        }
    }
}

/// The pending receipts after folding a prefix of the joined rooms.
pub open spec fn spec_folded_sync_receipts(
    m: Map<Seq<char>, Seq<char>>,
    join: Seq<(String, JoinedRoomInput)>,
    n: int,
) -> Map<Seq<char>, Seq<char>>
    decreases n,
{
    if n <= 0 {
        m
    } else {
        spec_folded_receipts_room(
            spec_folded_sync_receipts(m, join, n - 1),
            join[n - 1].0@,
            join[n - 1].1.ephemeral@,
            join[n - 1].1.ephemeral@.len() as int,
        )
    }
}

/// The committed presence map after folding a prefix: each event that
/// named its sender lands under it, later ones winning; the rest are
/// skipped without failing the sync.
pub open spec fn spec_folded_presence(
    m: Map<Seq<char>, Seq<char>>,
    events: Seq<crate::events::PresenceEventInput>,
    n: int,
) -> Map<Seq<char>, Seq<char>>
    decreases n,
{
    if n <= 0 {
        m
    } else {
        let prev = spec_folded_presence(m, events, n - 1);
        match events[n - 1].sender {
            Some(sender) => prev.insert(sender@, events[n - 1].raw@),
            None => prev,
        }
    }
}

/// The ignored users an account-data event carries, when it parses so.
pub open spec fn spec_parsed_ignored(e: AccountDataEventV) -> Option<Seq<Seq<char>>> {
    match e.parsed {
        Some(crate::events::AccountDataContentV::IgnoredUserList { ignored_users }) => Some(
            ignored_users,
        ),
        _ => None,
    }
}

/// When ignored-user-list observers are told: the sync delivered a readable
/// list, and the prior snapshot was unreadable or differs.
pub open spec fn spec_ignored_publish(
    changes_ad: Map<Seq<char>, AccountDataEventV>,
    store_ad: Map<Seq<char>, AccountDataEventV>,
) -> Option<Seq<Seq<char>>> {
    let k = "m.ignored_user_list"@;
    if changes_ad.contains_key(k) {
        match spec_parsed_ignored(changes_ad[k]) {
            Some(newl) => if store_ad.contains_key(k) {
                match spec_parsed_ignored(store_ad[k]) {
                    Some(prev) => if prev != newl {
                        Some(newl)
                    } else {
                        None
                    },
                    None => Some(newl),
                }
            } else {
                Some(newl)
            },
            None => None,
        }
    } else {
        None
    }
}

/// The claim survives a step that rewrites another room's summary and only
/// appends crypto commands.
pub proof fn lemma_claim_frame(
    response: &SyncInput,
    rid2: Seq<char>,
    jn: int,
    ln: int,
    inn: int,
    kn: int,
    prev_infos: Map<Seq<char>, RoomInfoV>,
    cur_infos: Map<Seq<char>, RoomInfoV>,
    prev_cmds: Seq<CryptoCommand>,
    cur_cmds: Seq<CryptoCommand>,
    pre_store: StateStoreV,
    ce: bool,
)
    requires
        spec_sync_claim(response, rid2, jn, ln, inn, kn, prev_infos, prev_cmds, pre_store, ce),
        cur_infos.contains_key(rid2) == prev_infos.contains_key(rid2),
        prev_infos.contains_key(rid2) ==> cur_infos[rid2] == prev_infos[rid2],
        cur_cmds.len() >= prev_cmds.len(),
        forall|i: int| #![trigger cur_cmds[i]] 0 <= i < prev_cmds.len() ==> cur_cmds[i] == prev_cmds[i],
    ensures
        spec_sync_claim(response, rid2, jn, ln, inn, kn, cur_infos, cur_cmds, pre_store, ce),
{
    match spec_prefix_state(response, rid2, jn, ln, inn, kn) {
        Some(st) => {
            if st == RoomState::Joined {
                if ce && !spec_store_room_encrypted(pre_store, rid2) && prev_infos[rid2].encryption
                    == crate::room::EncryptionState::Encrypted {
                    assert(spec_has_bootstrap_command(prev_cmds, 0, pre_store, rid2));
                    let ci = choose|ci: int|
                        #![trigger prev_cmds[ci]]
                        0 <= ci < prev_cmds.len() && spec_covers_room(
                            prev_cmds[ci],
                            pre_store,
                            rid2,
                        );
                    assert(cur_cmds[ci] == prev_cmds[ci]);
                    assert(spec_covers_room(cur_cmds[ci], pre_store, rid2));
                    assert(spec_has_bootstrap_command(cur_cmds, 0, pre_store, rid2));
                }
                let w = choose|w: int|
                    #![trigger response.join@[w]]
                    0 <= w < jn && response.join@[w].0@ == rid2 && (
                    response.join@[w].1.timeline.limited ==> prev_infos[rid2].members_sync_status
                        == MembersSyncStatus::Missing) && (forall|w2: int|
                        #![trigger response.join@[w2]]
                        w < w2 < jn ==> response.join@[w2].0@ != rid2) && ((ce
                        && prev_infos[rid2].encryption == crate::room::EncryptionState::Encrypted)
                        ==> exists|ci: int|
                        #![trigger prev_cmds[ci]]
                        0 <= ci < prev_cmds.len() && spec_tracks_exactly(
                            prev_cmds[ci],
                            spec_joined_batch_members(response.join@[w].1),
                        ));
                if ce && cur_infos[rid2].encryption == crate::room::EncryptionState::Encrypted {
                    let bi = choose|bi: int|
                        #![trigger prev_cmds[bi]]
                        0 <= bi < prev_cmds.len() && spec_tracks_exactly(
                            prev_cmds[bi],
                            spec_joined_batch_members(response.join@[w].1),
                        );
                    assert(cur_cmds[bi] == prev_cmds[bi]);
                    assert(spec_tracks_exactly(
                        cur_cmds[bi],
                        spec_joined_batch_members(response.join@[w].1),
                    ));
                }
                assert(spec_join_claim(
                    response,
                    rid2,
                    jn,
                    cur_infos,
                    cur_cmds,
                    pre_store,
                    ce,
                ));
            }
        },
        None => {},
    }
}

/// Growing a bucket's prefix by an entry for another room does not change
/// whether the prefix names this one.
pub proof fn lemma_join_prefix_grow(response: &SyncInput, rid2: Seq<char>, n: int)
    requires
        0 <= n < response.join@.len(),
        response.join@[n].0@ != rid2,
    ensures
        spec_in_join_prefix(response, rid2, n + 1) == spec_in_join_prefix(response, rid2, n),
{
    if spec_in_join_prefix(response, rid2, n + 1) {
        let w = choose|w: int|
            #![trigger response.join@[w]]
            0 <= w < n + 1 && response.join@[w].0@ == rid2;
        assert(w < n);
        assert(spec_in_join_prefix(response, rid2, n));
    }
}

pub proof fn lemma_leave_prefix_grow(response: &SyncInput, rid2: Seq<char>, n: int)
    requires
        0 <= n < response.leave@.len(),
        response.leave@[n].0@ != rid2,
    ensures
        spec_in_leave_prefix(response, rid2, n + 1) == spec_in_leave_prefix(response, rid2, n),
{
    if spec_in_leave_prefix(response, rid2, n + 1) {
        let w = choose|w: int|
            #![trigger response.leave@[w]]
            0 <= w < n + 1 && response.leave@[w].0@ == rid2;
        assert(w < n);
        assert(spec_in_leave_prefix(response, rid2, n));
    }
}

pub proof fn lemma_invite_prefix_grow(response: &SyncInput, rid2: Seq<char>, n: int)
    requires
        0 <= n < response.invite@.len(),
        response.invite@[n].0@ != rid2,
    ensures
        spec_in_invite_prefix(response, rid2, n + 1) == spec_in_invite_prefix(response, rid2, n),
{
    if spec_in_invite_prefix(response, rid2, n + 1) {
        let w = choose|w: int|
            #![trigger response.invite@[w]]
            0 <= w < n + 1 && response.invite@[w].0@ == rid2;
        assert(w < n);
        assert(spec_in_invite_prefix(response, rid2, n));
    }
}

pub proof fn lemma_knock_prefix_grow(response: &SyncInput, rid2: Seq<char>, n: int)
    requires
        0 <= n < response.knock@.len(),
        response.knock@[n].0@ != rid2,
    ensures
        spec_in_knock_prefix(response, rid2, n + 1) == spec_in_knock_prefix(response, rid2, n),
{
    if spec_in_knock_prefix(response, rid2, n + 1) {
        let w = choose|w: int|
            #![trigger response.knock@[w]]
            0 <= w < n + 1 && response.knock@[w].0@ == rid2;
        assert(w < n);
        assert(spec_in_knock_prefix(response, rid2, n));
    }
}

/// One committed room follows its latest bucket.
pub open spec fn spec_room_state_follows(
    response: &SyncInput,
    post_store: StateStoreV,
    rid: Seq<char>,
) -> bool {
    match spec_last_bucket_state(response, rid) {
        Some(st) => post_store.rooms.contains_key(rid) && post_store.rooms[rid].info.state == st,
        None => true,
    }
}

/// A limited last-joined timeline left the members missing.
pub open spec fn spec_limited_marks_missing(
    response: &SyncInput,
    post_store: StateStoreV,
    w: int,
) -> bool {
    spec_last_join_occurrence(response, w) && response.join@[w].1.timeline.limited
        && spec_last_bucket_state(response, response.join@[w].0@) == Some(RoomState::Joined)
        ==> post_store.rooms[response.join@[w].0@].info.members_sync_status
        == MembersSyncStatus::Missing
}

/// A room whose last bucket is a join and that stands encrypted got a
/// tracking command for exactly the members this batch updated.
pub open spec fn spec_batch_tracked(
    response: &SyncInput,
    post_store: StateStoreV,
    commands: Seq<CryptoCommand>,
    crypto_enabled: bool,
    w: int,
) -> bool {
    spec_last_join_occurrence(response, w) && crypto_enabled && spec_last_bucket_state(
        response,
        response.join@[w].0@,
    ) == Some(RoomState::Joined) && spec_store_room_encrypted(post_store, response.join@[w].0@)
        ==> exists|ci: int|
        #![trigger commands[ci]]
        0 <= ci < commands.len() && spec_tracks_exactly(
            commands[ci],
            spec_joined_batch_members(response.join@[w].1),
        )
}

/// A room that turned encrypted left a bootstrap tracking command.
pub open spec fn spec_encryption_bootstrapped(
    response: &SyncInput,
    pre_store: StateStoreV,
    post_store: StateStoreV,
    commands: Seq<CryptoCommand>,
    crypto_enabled: bool,
    rid: Seq<char>,
) -> bool {
    crypto_enabled && spec_last_bucket_state(response, rid) == Some(RoomState::Joined)
        && !spec_store_room_encrypted(pre_store, rid) && spec_store_room_encrypted(post_store, rid)
        ==> spec_has_bootstrap_command(commands, 0, pre_store, rid)
}

/// Whether position `w` is the join bucket's last entry for its room.
pub open spec fn spec_last_join_occurrence(response: &SyncInput, w: int) -> bool {
    &&& 0 <= w < response.join@.len()
    &&& (forall|w2: int|
        #![trigger response.join@[w2]]
        w < w2 < response.join@.len() ==> response.join@[w2].0@ != response.join@[w].0@)
}

/// What a non-replayed sync guarantees of the committed rooms: their states
/// follow the buckets, limited timelines mark members missing, and rooms
/// that turned encrypted got their bootstrap tracking command.
pub open spec fn spec_sync_rooms_post(
    response: &SyncInput,
    pre_store: StateStoreV,
    post_store: StateStoreV,
    commands: Seq<CryptoCommand>,
    crypto_enabled: bool,
) -> bool {
    &&& (forall|rid: Seq<char>|
        #![trigger spec_room_state_follows(response, post_store, rid)]
        spec_room_state_follows(response, post_store, rid))
    &&& (forall|w: int|
        #![trigger spec_limited_marks_missing(response, post_store, w)]
        spec_limited_marks_missing(response, post_store, w))
    &&& (forall|rid: Seq<char>|
        #![trigger spec_encryption_bootstrapped(response, pre_store, post_store, commands, crypto_enabled, rid)]
        spec_encryption_bootstrapped(
            response,
            pre_store,
            post_store,
            commands,
            crypto_enabled,
            rid,
        ))
    &&& (forall|w: int|
        #![trigger spec_batch_tracked(response, post_store, commands, crypto_enabled, w)]
        spec_batch_tracked(response, post_store, commands, crypto_enabled, w))
}

/// The commit gives every bucket room the state of its latest bucket.
#[verifier::rlimit(100)]
#[verifier::spinoff_prover]
pub proof fn lemma_commit_bucket_states(
    response: &SyncInput,
    pre_store: StateStoreV,
    committed: StateStoreV,
    post_store: StateStoreV,
    infos_after: Map<Seq<char>, RoomInfoV>,
    commands: Seq<CryptoCommand>,
    crypto_enabled: bool,
)
    requires
        forall|rid: Seq<char>|
            #![trigger infos_after.contains_key(rid)]
            spec_sync_claim(
                response,
                rid,
                response.join@.len() as int,
                response.leave@.len() as int,
                response.invite@.len() as int,
                response.knock@.len() as int,
                infos_after,
                commands,
                pre_store,
                crypto_enabled,
            ),
        forall|k: Seq<char>|
            #![trigger infos_after.contains_key(k)]
            infos_after.contains_key(k) ==> committed.rooms.contains_key(k)
                && committed.rooms[k].info == infos_after[k],
        forall|k: Seq<char>|
            #![trigger post_store.rooms.contains_key(k)]
            post_store.rooms.contains_key(k) == committed.rooms.contains_key(k) && (
            committed.rooms.contains_key(k) ==> post_store.rooms[k].info
                == committed.rooms[k].info),
    ensures
        forall|rid: Seq<char>|
            #![trigger spec_room_state_follows(response, post_store, rid)]
            spec_room_state_follows(response, post_store, rid),
{

    let jlen = response.join@.len() as int;
    let llen = response.leave@.len() as int;
    let ilen = response.invite@.len() as int;
    let klen = response.knock@.len() as int;
    let cmds = commands;
    assert forall|rid: Seq<char>|
        #![trigger spec_room_state_follows(response, post_store, rid)]
        spec_room_state_follows(response, post_store, rid) by {
        assert(infos_after.contains_key(rid) || !infos_after.contains_key(rid));
        assert(spec_sync_claim(
            response,
            rid,
            jlen,
            llen,
            ilen,
            klen,
            infos_after,
            cmds,
            pre_store,
            crypto_enabled,
        ));
        match spec_last_bucket_state(response, rid) {
            Some(st) => {
                if st == RoomState::Joined {
                    assert(spec_join_claim(
                        response,
                        rid,
                        jlen,
                        infos_after,
                        cmds,
                        pre_store,
                        crypto_enabled,
                    ));
                }
                assert(infos_after.contains_key(rid));
                assert(infos_after[rid].state == st);
                assert(committed.rooms.contains_key(rid));
                assert(post_store.rooms.contains_key(rid));
                assert(post_store.rooms[rid].info == infos_after[rid]);
            },
            None => {},
        }
    }
}

/// The commit marks members missing where the last joined timeline was
/// limited.
#[verifier::rlimit(100)]
#[verifier::spinoff_prover]
pub proof fn lemma_commit_members_missing(
    response: &SyncInput,
    pre_store: StateStoreV,
    committed: StateStoreV,
    post_store: StateStoreV,
    infos_after: Map<Seq<char>, RoomInfoV>,
    commands: Seq<CryptoCommand>,
    crypto_enabled: bool,
)
    requires
        forall|rid: Seq<char>|
            #![trigger infos_after.contains_key(rid)]
            spec_sync_claim(
                response,
                rid,
                response.join@.len() as int,
                response.leave@.len() as int,
                response.invite@.len() as int,
                response.knock@.len() as int,
                infos_after,
                commands,
                pre_store,
                crypto_enabled,
            ),
        forall|k: Seq<char>|
            #![trigger infos_after.contains_key(k)]
            infos_after.contains_key(k) ==> committed.rooms.contains_key(k)
                && committed.rooms[k].info == infos_after[k],
        forall|k: Seq<char>|
            #![trigger post_store.rooms.contains_key(k)]
            post_store.rooms.contains_key(k) == committed.rooms.contains_key(k) && (
            committed.rooms.contains_key(k) ==> post_store.rooms[k].info
                == committed.rooms[k].info),
    ensures
        forall|w: int|
            #![trigger spec_limited_marks_missing(response, post_store, w)]
            spec_limited_marks_missing(response, post_store, w),
{

    let jlen = response.join@.len() as int;
    let llen = response.leave@.len() as int;
    let ilen = response.invite@.len() as int;
    let klen = response.knock@.len() as int;
    let cmds = commands;
    assert forall|w: int|
        #![trigger spec_limited_marks_missing(response, post_store, w)]
        spec_limited_marks_missing(response, post_store, w) by {
        if spec_last_join_occurrence(response, w) && response.join@[w].1.timeline.limited
            && spec_last_bucket_state(response, response.join@[w].0@) == Some(RoomState::Joined) {
        let rid = response.join@[w].0@;
        assert(infos_after.contains_key(rid) || !infos_after.contains_key(rid));
        assert(spec_sync_claim(
            response,
            rid,
            jlen,
            llen,
            ilen,
            klen,
            infos_after,
            cmds,
            pre_store,
            crypto_enabled,
        ));
        assert(spec_join_claim(response, rid, jlen, infos_after, cmds, pre_store, crypto_enabled));
        let wc = choose|wc: int|
            #![trigger response.join@[wc]]
            0 <= wc < jlen && response.join@[wc].0@ == rid && (
            response.join@[wc].1.timeline.limited ==> infos_after[rid].members_sync_status
                == MembersSyncStatus::Missing) && (forall|w2: int|
                #![trigger response.join@[w2]]
                wc < w2 < jlen ==> response.join@[w2].0@ != rid);
        assert(wc == w) by {
            if wc < w {
                assert(response.join@[w].0@ != rid);
            }
            if w < wc {
                assert(response.join@[wc].0@ != rid);
            }
        }
        assert(infos_after[rid].members_sync_status == MembersSyncStatus::Missing);
        assert(committed.rooms.contains_key(rid) && committed.rooms[rid].info
            == infos_after[rid]);
        assert(post_store.rooms.contains_key(rid));
        assert(post_store.rooms[rid].info == infos_after[rid]);
        }
    }
}

/// The commit leaves a bootstrap tracking command behind every room that
/// turned encrypted.
#[verifier::rlimit(100)]
#[verifier::spinoff_prover]
pub proof fn lemma_commit_encryption_bootstrap(
    response: &SyncInput,
    pre_store: StateStoreV,
    committed: StateStoreV,
    post_store: StateStoreV,
    infos_after: Map<Seq<char>, RoomInfoV>,
    commands: Seq<CryptoCommand>,
    crypto_enabled: bool,
)
    requires
        forall|rid: Seq<char>|
            #![trigger infos_after.contains_key(rid)]
            spec_sync_claim(
                response,
                rid,
                response.join@.len() as int,
                response.leave@.len() as int,
                response.invite@.len() as int,
                response.knock@.len() as int,
                infos_after,
                commands,
                pre_store,
                crypto_enabled,
            ),
        forall|k: Seq<char>|
            #![trigger infos_after.contains_key(k)]
            infos_after.contains_key(k) ==> committed.rooms.contains_key(k)
                && committed.rooms[k].info == infos_after[k],
        forall|k: Seq<char>|
            #![trigger post_store.rooms.contains_key(k)]
            post_store.rooms.contains_key(k) == committed.rooms.contains_key(k) && (
            committed.rooms.contains_key(k) ==> post_store.rooms[k].info
                == committed.rooms[k].info),
    ensures
        forall|rid: Seq<char>|
            #![trigger spec_encryption_bootstrapped(response, pre_store, post_store, commands, crypto_enabled, rid)]
            spec_encryption_bootstrapped(
                response,
                pre_store,
                post_store,
                commands,
                crypto_enabled,
                rid,
            ),
{

    let jlen = response.join@.len() as int;
    let llen = response.leave@.len() as int;
    let ilen = response.invite@.len() as int;
    let klen = response.knock@.len() as int;
    let cmds = commands;
    assert forall|rid: Seq<char>|
        #![trigger spec_encryption_bootstrapped(response, pre_store, post_store, commands, crypto_enabled, rid)]
        spec_encryption_bootstrapped(
            response,
            pre_store,
            post_store,
            commands,
            crypto_enabled,
            rid,
        ) by {
        if crypto_enabled && spec_last_bucket_state(response, rid) == Some(RoomState::Joined)
            && !spec_store_room_encrypted(pre_store, rid) && spec_store_room_encrypted(
            post_store,
            rid,
        ) {
        assert(infos_after.contains_key(rid) || !infos_after.contains_key(rid));
        assert(spec_sync_claim(
            response,
            rid,
            jlen,
            llen,
            ilen,
            klen,
            infos_after,
            cmds,
            pre_store,
            crypto_enabled,
        ));
        assert(spec_join_claim(response, rid, jlen, infos_after, cmds, pre_store, crypto_enabled));
        assert(committed.rooms.contains_key(rid) && committed.rooms[rid].info
            == infos_after[rid]);
        assert(post_store.rooms[rid].info == infos_after[rid]);
        assert(infos_after[rid].encryption == crate::room::EncryptionState::Encrypted);
        }
    }
}

/// The commit keeps the batch tracking command of every encrypted joined
/// room.
#[verifier::rlimit(100)]
#[verifier::spinoff_prover]
pub proof fn lemma_commit_batch_tracked(
    response: &SyncInput,
    pre_store: StateStoreV,
    committed: StateStoreV,
    post_store: StateStoreV,
    infos_after: Map<Seq<char>, RoomInfoV>,
    commands: Seq<CryptoCommand>,
    crypto_enabled: bool,
)
    requires
        forall|rid: Seq<char>|
            #![trigger infos_after.contains_key(rid)]
            spec_sync_claim(
                response,
                rid,
                response.join@.len() as int,
                response.leave@.len() as int,
                response.invite@.len() as int,
                response.knock@.len() as int,
                infos_after,
                commands,
                pre_store,
                crypto_enabled,
            ),
        forall|k: Seq<char>|
            #![trigger infos_after.contains_key(k)]
            infos_after.contains_key(k) ==> committed.rooms.contains_key(k)
                && committed.rooms[k].info == infos_after[k],
        forall|k: Seq<char>|
            #![trigger post_store.rooms.contains_key(k)]
            post_store.rooms.contains_key(k) == committed.rooms.contains_key(k) && (
            committed.rooms.contains_key(k) ==> post_store.rooms[k].info
                == committed.rooms[k].info),
    ensures
        forall|w: int|
            #![trigger spec_batch_tracked(response, post_store, commands, crypto_enabled, w)]
            spec_batch_tracked(response, post_store, commands, crypto_enabled, w),
{
    let jlen = response.join@.len() as int;
    let llen = response.leave@.len() as int;
    let ilen = response.invite@.len() as int;
    let klen = response.knock@.len() as int;
    assert forall|w: int|
        #![trigger spec_batch_tracked(response, post_store, commands, crypto_enabled, w)]
        spec_batch_tracked(response, post_store, commands, crypto_enabled, w) by {
        if spec_last_join_occurrence(response, w) && crypto_enabled && spec_last_bucket_state(
            response,
            response.join@[w].0@,
        ) == Some(RoomState::Joined) && spec_store_room_encrypted(
            post_store,
            response.join@[w].0@,
        ) {
            let rid = response.join@[w].0@;
            assert(infos_after.contains_key(rid) || !infos_after.contains_key(rid));
            assert(spec_sync_claim(
                response,
                rid,
                jlen,
                llen,
                ilen,
                klen,
                infos_after,
                commands,
                pre_store,
                crypto_enabled,
            ));
            assert(spec_join_claim(
                response,
                rid,
                jlen,
                infos_after,
                commands,
                pre_store,
                crypto_enabled,
            ));
            let wc = choose|wc: int|
                #![trigger response.join@[wc]]
                0 <= wc < jlen && response.join@[wc].0@ == rid && (
                response.join@[wc].1.timeline.limited ==> infos_after[rid].members_sync_status
                    == MembersSyncStatus::Missing) && (forall|w2: int|
                    #![trigger response.join@[w2]]
                    wc < w2 < jlen ==> response.join@[w2].0@ != rid) && ((crypto_enabled
                    && infos_after[rid].encryption == crate::room::EncryptionState::Encrypted)
                    ==> exists|ci: int|
                    #![trigger commands[ci]]
                    0 <= ci < commands.len() && spec_tracks_exactly(
                        commands[ci],
                        spec_joined_batch_members(response.join@[wc].1),
                    ));
            assert(wc == w) by {
                if wc < w {
                    assert(response.join@[w].0@ != rid);
                }
                if w < wc {
                    assert(response.join@[wc].0@ != rid);
                }
            }
            assert(committed.rooms.contains_key(rid) && committed.rooms[rid].info
                == infos_after[rid]);
            assert(post_store.rooms[rid].info == infos_after[rid]);
            assert(infos_after[rid].encryption == crate::room::EncryptionState::Encrypted);
        }
    }
}

/// The committed store realizes the room guarantees.
#[verifier::rlimit(100)]
#[verifier::spinoff_prover]
pub proof fn lemma_commit_realizes_post(
    response: &SyncInput,
    pre_store: StateStoreV,
    committed: StateStoreV,
    post_store: StateStoreV,
    infos_after: Map<Seq<char>, RoomInfoV>,
    commands: Seq<CryptoCommand>,
    crypto_enabled: bool,
)
    requires
        forall|rid: Seq<char>|
            #![trigger infos_after.contains_key(rid)]
            spec_sync_claim(
                response,
                rid,
                response.join@.len() as int,
                response.leave@.len() as int,
                response.invite@.len() as int,
                response.knock@.len() as int,
                infos_after,
                commands,
                pre_store,
                crypto_enabled,
            ),
        forall|k: Seq<char>|
            #![trigger infos_after.contains_key(k)]
            infos_after.contains_key(k) ==> committed.rooms.contains_key(k)
                && committed.rooms[k].info == infos_after[k],
        forall|k: Seq<char>|
            #![trigger post_store.rooms.contains_key(k)]
            post_store.rooms.contains_key(k) == committed.rooms.contains_key(k) && (
            committed.rooms.contains_key(k) ==> post_store.rooms[k].info
                == committed.rooms[k].info),
    ensures
        spec_sync_rooms_post(response, pre_store, post_store, commands, crypto_enabled),
{
    lemma_commit_bucket_states(
        response,
        pre_store,
        committed,
        post_store,
        infos_after,
        commands,
        crypto_enabled,
    );
    lemma_commit_members_missing(
        response,
        pre_store,
        committed,
        post_store,
        infos_after,
        commands,
        crypto_enabled,
    );
    lemma_commit_encryption_bootstrap(
        response,
        pre_store,
        committed,
        post_store,
        infos_after,
        commands,
        crypto_enabled,
    );
    lemma_commit_batch_tracked(
        response,
        pre_store,
        committed,
        post_store,
        infos_after,
        commands,
        crypto_enabled,
    );
}

impl BaseClient {
    /// Receive a sync response with no particular required states: the same
    /// guarantees as with them.
    pub fn receive_sync_response(&mut self, response: &SyncInput) -> (r: SyncOutput)
        requires
            old(self).wf(),
            response.decryptions.wf(),
        ensures
            final(self).wf(),
            final(self).session == old(self).session,
            final(self).crypto_enabled == old(self).crypto_enabled,
            old(self).state_store@.sync_token == Some(response.next_batch@) ==> r.spec_is_empty()
                && *final(self) == *old(self),
            old(self).state_store@.sync_token != Some(response.next_batch@) ==> final(self).state_store@.sync_token == Some(response.next_batch@),
            old(self).state_store@.sync_token != Some(response.next_batch@)
                ==> spec_sync_rooms_post(
                response,
                old(self).state_store@,
                final(self).state_store@,
                r.crypto_commands@,
                old(self).crypto_enabled,
            ),
            old(self).state_store@.sync_token != Some(response.next_batch@)
                ==> r.ignored_user_list_publish.deep_view() == spec_ignored_publish(
                spec_folded_account_data(
                    response.account_data@,
                    response.account_data@.len() as int,
                ),
                old(self).state_store@.account_data,
            ),
            old(self).state_store@.sync_token != Some(response.next_batch@)
                ==> r.rooms_join@.len() == response.join@.len() && (forall|w: int|
                #![trigger r.rooms_join@[w]]
                0 <= w < response.join@.len() ==> r.rooms_join@[w].0@ == response.join@[w].0@
                    && r.rooms_join@[w].1.timeline.events@.len()
                    == response.join@[w].1.timeline.events@.len()),
            old(self).state_store@.sync_token != Some(response.next_batch@) ==> final(self).state_store@.account_data == old(self).state_store@.account_data.union_prefer_right(
                spec_folded_account_data(
                    response.account_data@,
                    response.account_data@.len() as int,
                ),
            ),
            old(self).state_store@.sync_token != Some(response.next_batch@) ==> final(self).state_store@.presence == old(self).state_store@.presence.union_prefer_right(
                spec_folded_presence(
                    Map::empty(),
                    response.presence@,
                    response.presence@.len() as int,
                ),
            ),
            // the joined rooms' receipts are committed
            old(self).state_store@.sync_token != Some(response.next_batch@) ==> final(self).state_store@.receipts == old(self).state_store@.receipts.union_prefer_right(
                spec_folded_sync_receipts(Map::empty(), response.join@, response.join@.len() as int),
            ),
            old(self).state_store@.sync_token != Some(response.next_batch@) ==> r.presence.deep_view()
                == response.presence.deep_view() && r.account_data.deep_view()
                == response.account_data.deep_view(),
            old(self).state_store@.sync_token != Some(response.next_batch@) ==> r.to_device.deep_view()
                == (match response.crypto {
                Some(ref c) => c.decrypted_to_device.deep_view(),
                None => response.to_device.deep_view(),
            }),
    {
        let requested = crate::required_states::RequestedRequiredStates::none();
        self.receive_sync_response_with_requested_required_states(response, &requested)
    }

    /// Receive a sync response, knowing which state events the request asked
    /// to be returned.
    ///
    /// The response is folded into a single change set which is committed
    /// atomically; the answer carries the per-room updates and the effects
    /// the host must perform. A replayed response (same sync token as the
    /// stored one) is a no-op.
    #[verifier::rlimit(100)]
    #[verifier::spinoff_prover]
    pub fn receive_sync_response_with_requested_required_states(
        &mut self,
        response: &SyncInput,
        requested_required_states: &crate::required_states::RequestedRequiredStates,
    ) -> (r: SyncOutput)
        requires
            old(self).wf(),
            requested_required_states.wf(),
            response.decryptions.wf(),
        ensures
            final(self).wf(),
            final(self).session == old(self).session,
            final(self).crypto_enabled == old(self).crypto_enabled,
            // a replayed response is detected and changes nothing
            old(self).state_store@.sync_token == Some(response.next_batch@) ==> r.spec_is_empty()
                && *final(self) == *old(self),
            old(self).state_store@.sync_token != Some(response.next_batch@) ==> final(self).state_store@.sync_token == Some(response.next_batch@),
            // the committed rooms follow the response's buckets
            old(self).state_store@.sync_token != Some(response.next_batch@)
                ==> spec_sync_rooms_post(
                response,
                old(self).state_store@,
                final(self).state_store@,
                r.crypto_commands@,
                old(self).crypto_enabled,
            ),
            // observers hear of the ignored-user list exactly when the sync
            // delivered a readable list and the prior snapshot was
            // unreadable or different
            old(self).state_store@.sync_token != Some(response.next_batch@)
                ==> r.ignored_user_list_publish.deep_view() == spec_ignored_publish(
                spec_folded_account_data(
                    response.account_data@,
                    response.account_data@.len() as int,
                ),
                old(self).state_store@.account_data,
            ),
            // the joined updates mirror the joined bucket, in order, their
            // timelines event for event
            old(self).state_store@.sync_token != Some(response.next_batch@)
                ==> r.rooms_join@.len() == response.join@.len() && (forall|w: int|
                #![trigger r.rooms_join@[w]]
                0 <= w < response.join@.len() ==> r.rooms_join@[w].0@ == response.join@[w].0@
                    && r.rooms_join@[w].1.timeline.events@.len()
                    == response.join@[w].1.timeline.events@.len()),
            // the global account data is committed, keyed by type
            old(self).state_store@.sync_token != Some(response.next_batch@) ==> final(self).state_store@.account_data == old(self).state_store@.account_data.union_prefer_right(
                spec_folded_account_data(
                    response.account_data@,
                    response.account_data@.len() as int,
                ),
            ),
            // presence is committed for exactly the events that named their
            // sender, and the answer carries the presence events verbatim
            old(self).state_store@.sync_token != Some(response.next_batch@) ==> final(self).state_store@.presence == old(self).state_store@.presence.union_prefer_right(
                spec_folded_presence(Map::empty(), response.presence@, response.presence@.len() as int),
            ),
            // the joined rooms' receipts are committed
            old(self).state_store@.sync_token != Some(response.next_batch@) ==> final(self).state_store@.receipts == old(self).state_store@.receipts.union_prefer_right(
                spec_folded_sync_receipts(Map::empty(), response.join@, response.join@.len() as int),
            ),
            old(self).state_store@.sync_token != Some(response.next_batch@) ==> r.presence.deep_view()
                == response.presence.deep_view() && r.account_data.deep_view()
                == response.account_data.deep_view(),
            // the to-device events come back as the host's crypto engine
            // left them
            old(self).state_store@.sync_token != Some(response.next_batch@) ==> r.to_device.deep_view()
                == (match response.crypto {
                Some(ref c) => c.decrypted_to_device.deep_view(),
                None => response.to_device.deep_view(),
            }),
    {
        // A replayed response: nothing to do.
        let same = match &self.state_store.sync_token {
            Some(t) => t.eq(&response.next_batch),
            None => false,
        };
        if same {
            return SyncOutput::empty();
        }
        let ghost pre_store = self.state_store@;
        let crypto_enabled = self.crypto_enabled;
        let handle_verifications = self.handle_verification_events;
        let own_user: String = match &self.session {
            Some(meta) => meta.user_id.clone(),
            None => String::new(),
        };

        let mut changes = StateChanges::new(Some(response.next_batch.clone()));
        let mut ambiguity = AmbiguityCache::new();
        let mut notifications: Vec<(String, NotificationModel)> = Vec::new();
        let mut crypto_commands: Vec<CryptoCommand> = Vec::new();
        let mut reasons: KMap<String, NotableReasons> = KMap::new();
        let mut member_updates: Vec<(String, Vec<String>)> = Vec::new();
        let mut latest_writebacks: Vec<(String, Vec<String>)> = Vec::new();

        // To-device preprocessing happened on the host; a room whose keys
        // changed gets another chance at a decryptable latest event.
        let to_device: Vec<String> = match &response.crypto {
            Some(crypto) => {
                let kn = crypto.room_key_updates.len();
                for ki in 0..kn
                    invariant
                        kn == crypto.room_key_updates@.len(),
                        self.wf(),
                        self == old(self),
                        changes.wf(),
                        reasons.wf(),
                        changes@.account_data == Map::<Seq<char>, AccountDataEventV>::empty(),
                        changes@.presence == Map::<Seq<char>, Seq<char>>::empty(),
                        changes@.receipts == Map::<Seq<char>, Seq<char>>::empty(),
                        changes@.sync_token == Some(response.next_batch@),
                        response.decryptions.wf(),
                {
                    let rid = &crypto.room_key_updates[ki];
                    if let Some(room) = self.state_store.room(rid) {
                        let mut info = room.info.dup();
                        let mut list = room.latest_encrypted_events.dup();
                        let found = decrypt_latest_events(
                            &mut info,
                            &mut list,
                            &own_user,
                            &response.decryptions,
                        );
                        if found {
                            changes.add_room(rid, info);
                            latest_writebacks.push((rid.clone(), list));
                            let prev = match reasons.get(rid) {
                                Some(r) => *r,
                                None => NotableReasons::none(),
                            };
                            reasons.insert(
                                rid.clone(),
                                NotableReasons { latest_event: true, ..prev },
                            );
                        }
                    }
                }
                crypto.decrypted_to_device.dup()
            },
            None => response.to_device.dup(),
        };

        // The effective push ruleset of this sync.
        let mut response_rules_raw: Option<String> = None;
        let adn = response.account_data.len();
        for i in 0..adn
            invariant
                adn == response.account_data@.len(),
        {
            if str_is(&response.account_data[i].event_type, "m.push_rules") {
                response_rules_raw = Some(response.account_data[i].raw.clone());
            }
        }
        let (ruleset, _ruleset_source) = crate::push::get_push_rules(
            &response_rules_raw,
            &self.state_store,
            &self.session,
        );

        // Joined rooms, in response order.
        let mut rooms_join: Vec<(String, JoinedRoomUpdate)> = Vec::new();
        let jlen = response.join.len();
        let mut ji: usize = 0;
        while ji < jlen
            invariant
                jlen == response.join@.len(),
                ji <= jlen,
                self.wf(),
                self == old(self),
                self.state_store@ == pre_store,
                changes.wf(),
                ambiguity.wf(),
                reasons.wf(),
                response.decryptions.wf(),
                requested_required_states.wf(),
                changes@.account_data == Map::<Seq<char>, AccountDataEventV>::empty(),
                changes@.presence == Map::<Seq<char>, Seq<char>>::empty(),
                changes@.receipts == spec_folded_sync_receipts(
                    Map::empty(),
                    response.join@,
                    ji as int,
                ),
                changes@.sync_token == Some(response.next_batch@),
                rooms_join@.len() == ji,
                forall|w: int|
                    #![trigger rooms_join@[w]]
                    0 <= w < ji ==> rooms_join@[w].0@ == response.join@[w].0@
                        && rooms_join@[w].1.timeline.events@.len()
                        == response.join@[w].1.timeline.events@.len(),
                forall|rid: Seq<char>|
                    #![trigger changes@.room_infos.contains_key(rid)]
                    spec_sync_claim(
                        response,
                        rid,
                        ji as int,
                        0,
                        0,
                        0,
                        changes@.room_infos,
                        crypto_commands@,
                        pre_store,
                        crypto_enabled,
                    ),
            decreases jlen - ji,
        {
            let rid = response.join[ji].0.clone();
            let ghost prev_infos = changes@.room_infos;
            let ghost prev_cmds = crypto_commands@;
            let update = process_joined_room(
                &self.state_store,
                &rid,
                &response.join[ji].1,
                requested_required_states,
                &ruleset,
                crypto_enabled,
                handle_verifications,
                &own_user,
                &response.decryptions,
                &mut changes,
                &mut ambiguity,
                &mut notifications,
                &mut crypto_commands,
                &mut reasons,
                &mut member_updates,
                &mut latest_writebacks,
            );
            rooms_join.push((rid.clone(), update));
            proof {
                assert(changes@.receipts =~= spec_folded_sync_receipts(
                    Map::empty(),
                    response.join@,
                    ji as int + 1,
                ));
                let v = choose|v: RoomInfoV|
                    #![trigger prev_infos.insert(rid@, v)]
                    changes@.room_infos == prev_infos.insert(rid@, v) && v.state
                        == RoomState::Joined && (response.join@[ji as int].1.timeline.limited
                        ==> v.members_sync_status == MembersSyncStatus::Missing) && ((
                    crypto_enabled && v.encryption == crate::room::EncryptionState::Encrypted
                        && !spec_store_room_encrypted(pre_store, rid@))
                        ==> spec_has_bootstrap_command(
                        crypto_commands@,
                        prev_cmds.len() as int,
                        pre_store,
                        rid@,
                    ));
                assert forall|rid2: Seq<char>|
                    #![trigger changes@.room_infos.contains_key(rid2)]
                    spec_sync_claim(
                        response,
                        rid2,
                        ji as int + 1,
                        0,
                        0,
                        0,
                        changes@.room_infos,
                        crypto_commands@,
                        pre_store,
                        crypto_enabled,
                    ) by {
                    if rid2 == rid@ {
                        assert(spec_in_join_prefix(response, rid2, ji as int + 1)) by {
                            assert(response.join@[ji as int].0@ == rid2);
                        }
                        if crypto_enabled && !spec_store_room_encrypted(pre_store, rid2)
                            && v.encryption == crate::room::EncryptionState::Encrypted {
                            assert(spec_has_bootstrap_command(
                                crypto_commands@,
                                prev_cmds.len() as int,
                                pre_store,
                                rid2,
                            ));
                            let ci = choose|ci: int|
                                #![trigger crypto_commands@[ci]]
                                prev_cmds.len() <= ci < crypto_commands@.len()
                                    && spec_covers_room(crypto_commands@[ci], pre_store, rid2);
                            assert(spec_has_bootstrap_command(
                                crypto_commands@,
                                0,
                                pre_store,
                                rid2,
                            ));
                        }
                        assert(spec_join_claim(
                            response,
                            rid2,
                            ji as int + 1,
                            changes@.room_infos,
                            crypto_commands@,
                            pre_store,
                            crypto_enabled,
                        )) by {
                            assert(exists|w: int|
                                #![trigger response.join@[w]]
                                0 <= w < (ji as int) + 1 && response.join@[w].0@ == rid2 && (
                                response.join@[w].1.timeline.limited
                                    ==> changes@.room_infos[rid2].members_sync_status
                                    == MembersSyncStatus::Missing) && (forall|w2: int|
                                    #![trigger response.join@[w2]]
                                    w < w2 < (ji as int) + 1 ==> response.join@[w2].0@ != rid2)) by {
                                assert(response.join@[ji as int].0@ == rid2 && (
                                response.join@[ji as int].1.timeline.limited
                                    ==> changes@.room_infos[rid2].members_sync_status
                                    == MembersSyncStatus::Missing) && (forall|w2: int|
                                    #![trigger response.join@[w2]]
                                    (ji as int) < w2 < (ji as int) + 1 ==> response.join@[w2].0@
                                        != rid2));
                            }
                        }
                    } else {
                        lemma_join_prefix_grow(response, rid2, ji as int);
                        lemma_claim_frame(
                            response,
                            rid2,
                            ji as int,
                            0,
                            0,
                            0,
                            prev_infos,
                            changes@.room_infos,
                            prev_cmds,
                            crypto_commands@,
                            pre_store,
                            crypto_enabled,
                        );
                        assert(spec_prefix_state(response, rid2, ji as int + 1, 0, 0, 0)
                            == spec_prefix_state(response, rid2, ji as int, 0, 0, 0));
                        if spec_prefix_state(response, rid2, ji as int, 0, 0, 0) == Some(
                            RoomState::Joined,
                        ) {
                            assert(spec_join_claim(
                                response,
                                rid2,
                                ji as int,
                                changes@.room_infos,
                                crypto_commands@,
                                pre_store,
                                crypto_enabled,
                            ));
                            let w = choose|w: int|
                                #![trigger response.join@[w]]
                                0 <= w < ji as int && response.join@[w].0@ == rid2 && (
                                response.join@[w].1.timeline.limited
                                    ==> changes@.room_infos[rid2].members_sync_status
                                    == MembersSyncStatus::Missing) && (forall|w2: int|
                                    #![trigger response.join@[w2]]
                                    w < w2 < ji as int ==> response.join@[w2].0@ != rid2);
                            assert(response.join@[ji as int].0@ != rid2);
                            assert(spec_join_claim(
                                response,
                                rid2,
                                ji as int + 1,
                                changes@.room_infos,
                                crypto_commands@,
                                pre_store,
                                crypto_enabled,
                            ));
                        }
                    }
                }
            }
            ji += 1;
        }

        // Left rooms.
        let mut rooms_leave: Vec<(String, LeftRoomUpdate)> = Vec::new();
        let llen = response.leave.len();
        let mut li: usize = 0;
        while li < llen
            invariant
                jlen == response.join@.len(),
                llen == response.leave@.len(),
                li <= llen,
                self.wf(),
                self == old(self),
                self.state_store@ == pre_store,
                changes.wf(),
                ambiguity.wf(),
                reasons.wf(),
                response.decryptions.wf(),
                requested_required_states.wf(),
                changes@.account_data == Map::<Seq<char>, AccountDataEventV>::empty(),
                changes@.presence == Map::<Seq<char>, Seq<char>>::empty(),
                changes@.receipts == spec_folded_sync_receipts(
                    Map::empty(),
                    response.join@,
                    jlen as int,
                ),
                changes@.sync_token == Some(response.next_batch@),
                rooms_join@.len() == jlen,
                forall|w: int|
                    #![trigger rooms_join@[w]]
                    0 <= w < jlen ==> rooms_join@[w].0@ == response.join@[w].0@
                        && rooms_join@[w].1.timeline.events@.len()
                        == response.join@[w].1.timeline.events@.len(),
                forall|rid: Seq<char>|
                    #![trigger changes@.room_infos.contains_key(rid)]
                    spec_sync_claim(
                        response,
                        rid,
                        jlen as int,
                        li as int,
                        0,
                        0,
                        changes@.room_infos,
                        crypto_commands@,
                        pre_store,
                        crypto_enabled,
                    ),
            decreases llen - li,
        {
            let rid = response.leave[li].0.clone();
            let ghost prev_infos = changes@.room_infos;
            let ghost prev_cmds = crypto_commands@;
            let update = process_left_room(
                &self.state_store,
                &rid,
                &response.leave[li].1,
                requested_required_states,
                &ruleset,
                crypto_enabled,
                handle_verifications,
                &own_user,
                &response.decryptions,
                &mut changes,
                &mut ambiguity,
                &mut notifications,
                &mut crypto_commands,
                &mut reasons,
                &mut latest_writebacks,
            );
            rooms_leave.push((rid.clone(), update));
            proof {
                let v = choose|v: RoomInfoV|
                    #![trigger prev_infos.insert(rid@, v)]
                    changes@.room_infos == prev_infos.insert(rid@, v) && v.state == RoomState::Left;
                assert forall|rid2: Seq<char>|
                    #![trigger changes@.room_infos.contains_key(rid2)]
                    spec_sync_claim(
                        response,
                        rid2,
                        jlen as int,
                        li as int + 1,
                        0,
                        0,
                        changes@.room_infos,
                        crypto_commands@,
                        pre_store,
                        crypto_enabled,
                    ) by {
                    if rid2 == rid@ {
                        assert(spec_in_leave_prefix(response, rid2, li as int + 1)) by {
                            assert(response.leave@[li as int].0@ == rid2);
                        }
                        assert(spec_prefix_state(
                            response,
                            rid2,
                            jlen as int,
                            li as int + 1,
                            0,
                            0,
                        ) == Some(RoomState::Left));
                    } else {
                        lemma_leave_prefix_grow(response, rid2, li as int);
                        lemma_claim_frame(
                            response,
                            rid2,
                            jlen as int,
                            li as int,
                            0,
                            0,
                            prev_infos,
                            changes@.room_infos,
                            prev_cmds,
                            crypto_commands@,
                            pre_store,
                            crypto_enabled,
                        );
                        assert(spec_prefix_state(response, rid2, jlen as int, li as int + 1, 0, 0)
                            == spec_prefix_state(response, rid2, jlen as int, li as int, 0, 0));
                    }
                }
            }
            li += 1;
        }

        // Invited rooms.
        let mut rooms_invite: Vec<(String, InvitedRoomInput)> = Vec::new();
        let ilen = response.invite.len();
        let mut ii: usize = 0;
        while ii < ilen
            invariant
                jlen == response.join@.len(),
                llen == response.leave@.len(),
                ilen == response.invite@.len(),
                ii <= ilen,
                self.wf(),
                self == old(self),
                self.state_store@ == pre_store,
                changes.wf(),
                ambiguity.wf(),
                reasons.wf(),
                requested_required_states.wf(),
                changes@.account_data == Map::<Seq<char>, AccountDataEventV>::empty(),
                changes@.presence == Map::<Seq<char>, Seq<char>>::empty(),
                changes@.receipts == spec_folded_sync_receipts(
                    Map::empty(),
                    response.join@,
                    jlen as int,
                ),
                changes@.sync_token == Some(response.next_batch@),
                rooms_join@.len() == jlen,
                forall|w: int|
                    #![trigger rooms_join@[w]]
                    0 <= w < jlen ==> rooms_join@[w].0@ == response.join@[w].0@
                        && rooms_join@[w].1.timeline.events@.len()
                        == response.join@[w].1.timeline.events@.len(),
                forall|rid: Seq<char>|
                    #![trigger changes@.room_infos.contains_key(rid)]
                    spec_sync_claim(
                        response,
                        rid,
                        jlen as int,
                        llen as int,
                        ii as int,
                        0,
                        changes@.room_infos,
                        crypto_commands@,
                        pre_store,
                        crypto_enabled,
                    ),
            decreases ilen - ii,
        {
            let rid = response.invite[ii].0.clone();
            let ghost prev_infos = changes@.room_infos;
            let ghost prev_cmds = crypto_commands@;
            process_stripped_room(
                &self.state_store,
                &rid,
                &response.invite[ii].1,
                RoomState::Invited,
                &ruleset,
                &own_user,
                &mut changes,
                &mut notifications,
            );
            rooms_invite.push(
                (rid.clone(), InvitedRoomInput { events: response.invite[ii].1.events.dup() }),
            );
            proof {
                let v = choose|v: RoomInfoV|
                    #![trigger prev_infos.insert(rid@, v)]
                    changes@.room_infos == prev_infos.insert(rid@, v) && v.state
                        == RoomState::Invited;
                assert forall|rid2: Seq<char>|
                    #![trigger changes@.room_infos.contains_key(rid2)]
                    spec_sync_claim(
                        response,
                        rid2,
                        jlen as int,
                        llen as int,
                        ii as int + 1,
                        0,
                        changes@.room_infos,
                        crypto_commands@,
                        pre_store,
                        crypto_enabled,
                    ) by {
                    if rid2 == rid@ {
                        assert(spec_in_invite_prefix(response, rid2, ii as int + 1)) by {
                            assert(response.invite@[ii as int].0@ == rid2);
                        }
                        assert(spec_prefix_state(
                            response,
                            rid2,
                            jlen as int,
                            llen as int,
                            ii as int + 1,
                            0,
                        ) == Some(RoomState::Invited));
                    } else {
                        lemma_invite_prefix_grow(response, rid2, ii as int);
                        lemma_claim_frame(
                            response,
                            rid2,
                            jlen as int,
                            llen as int,
                            ii as int,
                            0,
                            prev_infos,
                            changes@.room_infos,
                            prev_cmds,
                            crypto_commands@,
                            pre_store,
                            crypto_enabled,
                        );
                        assert(spec_prefix_state(
                            response,
                            rid2,
                            jlen as int,
                            llen as int,
                            ii as int + 1,
                            0,
                        ) == spec_prefix_state(
                            response,
                            rid2,
                            jlen as int,
                            llen as int,
                            ii as int,
                            0,
                        ));
                    }
                }
            }
            ii += 1;
        }

        // Knocked rooms.
        let mut rooms_knock: Vec<(String, InvitedRoomInput)> = Vec::new();
        let klen = response.knock.len();
        let mut ki: usize = 0;
        while ki < klen
            invariant
                jlen == response.join@.len(),
                llen == response.leave@.len(),
                ilen == response.invite@.len(),
                klen == response.knock@.len(),
                ki <= klen,
                self.wf(),
                self == old(self),
                self.state_store@ == pre_store,
                changes.wf(),
                ambiguity.wf(),
                reasons.wf(),
                requested_required_states.wf(),
                changes@.account_data == Map::<Seq<char>, AccountDataEventV>::empty(),
                changes@.presence == Map::<Seq<char>, Seq<char>>::empty(),
                changes@.receipts == spec_folded_sync_receipts(
                    Map::empty(),
                    response.join@,
                    jlen as int,
                ),
                changes@.sync_token == Some(response.next_batch@),
                rooms_join@.len() == jlen,
                forall|w: int|
                    #![trigger rooms_join@[w]]
                    0 <= w < jlen ==> rooms_join@[w].0@ == response.join@[w].0@
                        && rooms_join@[w].1.timeline.events@.len()
                        == response.join@[w].1.timeline.events@.len(),
                forall|rid: Seq<char>|
                    #![trigger changes@.room_infos.contains_key(rid)]
                    spec_sync_claim(
                        response,
                        rid,
                        jlen as int,
                        llen as int,
                        ilen as int,
                        ki as int,
                        changes@.room_infos,
                        crypto_commands@,
                        pre_store,
                        crypto_enabled,
                    ),
            decreases klen - ki,
        {
            let rid = response.knock[ki].0.clone();
            let ghost prev_infos = changes@.room_infos;
            let ghost prev_cmds = crypto_commands@;
            process_stripped_room(
                &self.state_store,
                &rid,
                &response.knock[ki].1,
                RoomState::Knocked,
                &ruleset,
                &own_user,
                &mut changes,
                &mut notifications,
            );
            rooms_knock.push(
                (rid.clone(), InvitedRoomInput { events: response.knock[ki].1.events.dup() }),
            );
            proof {
                let v = choose|v: RoomInfoV|
                    #![trigger prev_infos.insert(rid@, v)]
                    changes@.room_infos == prev_infos.insert(rid@, v) && v.state
                        == RoomState::Knocked;
                assert forall|rid2: Seq<char>|
                    #![trigger changes@.room_infos.contains_key(rid2)]
                    spec_sync_claim(
                        response,
                        rid2,
                        jlen as int,
                        llen as int,
                        ilen as int,
                        ki as int + 1,
                        changes@.room_infos,
                        crypto_commands@,
                        pre_store,
                        crypto_enabled,
                    ) by {
                    if rid2 == rid@ {
                        assert(spec_in_knock_prefix(response, rid2, ki as int + 1)) by {
                            assert(response.knock@[ki as int].0@ == rid2);
                        }
                        assert(spec_prefix_state(
                            response,
                            rid2,
                            jlen as int,
                            llen as int,
                            ilen as int,
                            ki as int + 1,
                        ) == Some(RoomState::Knocked));
                    } else {
                        lemma_knock_prefix_grow(response, rid2, ki as int);
                        lemma_claim_frame(
                            response,
                            rid2,
                            jlen as int,
                            llen as int,
                            ilen as int,
                            ki as int,
                            prev_infos,
                            changes@.room_infos,
                            prev_cmds,
                            crypto_commands@,
                            pre_store,
                            crypto_enabled,
                        );
                        assert(spec_prefix_state(
                            response,
                            rid2,
                            jlen as int,
                            llen as int,
                            ilen as int,
                            ki as int + 1,
                        ) == spec_prefix_state(
                            response,
                            rid2,
                            jlen as int,
                            llen as int,
                            ilen as int,
                            ki as int,
                        ));
                    }
                }
            }
            ki += 1;
        }

        let ghost infos_after = changes@.room_infos;
        let ghost cmds_after = crypto_commands@;

        // Global account data, folded by type, later events winning.
        let gn = response.account_data.len();
        let mut gi: usize = 0;
        proof {
            assert(changes@.account_data =~= spec_folded_account_data(response.account_data@, 0));
        }
        while gi < gn
            invariant
                gn == response.account_data@.len(),
                gi <= gn,
                changes.wf(),
                changes@.account_data == spec_folded_account_data(
                    response.account_data@,
                    gi as int,
                ),
                changes@.presence == Map::<Seq<char>, Seq<char>>::empty(),
                changes@.receipts == spec_folded_sync_receipts(
                    Map::empty(),
                    response.join@,
                    jlen as int,
                ),
                changes@.room_infos == infos_after,
                changes@.sync_token == Some(response.next_batch@),
            decreases gn - gi,
        {
            let ev = response.account_data[gi].dup();
            proof {
                assert(ev.event_type@ == response.account_data@[gi as int].event_type@) by {
                    assert(ev.deep_view() == response.account_data@[gi as int].deep_view());
                }
            }
            changes.add_account_data(ev);
            gi += 1;
        }

        // Presence, keyed by sender.
        let pn = response.presence.len();
        let mut pi: usize = 0;
        proof {
            assert(changes@.presence =~= spec_folded_presence(Map::empty(), response.presence@, 0));
        }
        while pi < pn
            invariant
                pn == response.presence@.len(),
                pi <= pn,
                changes.wf(),
                changes@.account_data == spec_folded_account_data(
                    response.account_data@,
                    gn as int,
                ),
                changes@.presence == spec_folded_presence(
                    Map::empty(),
                    response.presence@,
                    pi as int,
                ),
                changes@.receipts == spec_folded_sync_receipts(
                    Map::empty(),
                    response.join@,
                    jlen as int,
                ),
                changes@.room_infos == infos_after,
                changes@.sync_token == Some(response.next_batch@),
            decreases pn - pi,
        {
            if let Some(sender) = &response.presence[pi].sender {
                changes.add_presence(sender, response.presence[pi].raw.clone());
            }
            pi += 1;
        }

        // The display-name buckets the cache maintained become the change
        // set's ambiguity maps.
        changes.ambiguity_maps = ambiguity.buckets;

        // What the ignored-user-list observers must hear, decided against
        // the pre-commit snapshot.
        let ignored_key: String = "m.ignored_user_list".to_owned();
        let publish: Option<Vec<String>> = match changes.account_data.get(&ignored_key) {
            Some(ev) => match &ev.parsed {
                Some(crate::events::AccountDataContent::IgnoredUserList { ignored_users }) => {
                    let newl = ignored_users.dup();
                    match self.state_store.get_account_data_event(&ignored_key) {
                        Some(prev) => match &prev.parsed {
                            Some(crate::events::AccountDataContent::IgnoredUserList {
                                ignored_users: prev_users,
                            }) => {
                                if crate::util::str_vec_eq(&newl, prev_users) {
                                    None
                                } else {
                                    Some(newl)
                                }
                            },
                            _ => Some(newl),
                        },
                        None => Some(newl),
                    }
                },
                _ => None,
            },
            None => None,
        };
        proof {
            assert(publish.deep_view() == spec_ignored_publish(
                changes@.account_data,
                pre_store.account_data,
            ));
        }

        // Commit: one atomic write, then the sync token stands.
        self.state_store.save_changes(&changes);

        // Write back the rooms' refreshed encrypted candidates; the
        // committed summaries stay as they are.
        let ghost committed = self.state_store@;
        let wn = latest_writebacks.len();
        let mut wi: usize = 0;
        while wi < wn
            invariant
                wn == latest_writebacks@.len(),
                wi <= wn,
                self.wf(),
                self.session == old(self).session,
                self.crypto_enabled == old(self).crypto_enabled,
                self.state_store@.sync_token == committed.sync_token,
                self.state_store@.account_data == committed.account_data,
                self.state_store@.presence == committed.presence,
                self.state_store@.receipts == committed.receipts,
                forall|k: Seq<char>|
                    #![trigger self.state_store@.rooms.contains_key(k)]
                    self.state_store@.rooms.contains_key(k) == committed.rooms.contains_key(k) && (
                    committed.rooms.contains_key(k) ==> self.state_store@.rooms[k].info
                        == committed.rooms[k].info),
            decreases wn - wi,
        {
            let ghost pre_rooms = self.state_store@.rooms;
            let rid = latest_writebacks[wi].0.clone();
            let list = latest_writebacks[wi].1.dup();
            self.state_store.set_latest_encrypted_keyed(&rid, list);
            proof {
                assert forall|k: Seq<char>|
                    #![trigger self.state_store@.rooms.contains_key(k)]
                    self.state_store@.rooms.contains_key(k) == committed.rooms.contains_key(k) && (
                    committed.rooms.contains_key(k) ==> self.state_store@.rooms[k].info
                        == committed.rooms[k].info) by {
                    if k != rid@ {
                        assert(self.state_store@.rooms.contains_key(k) == pre_rooms.contains_key(
                            k,
                        ));
                    }
                }
            }
            wi += 1;
        }

        // One notable-update tick per committed room summary.
        let mut room_info_notable_updates: Vec<(String, NotableReasons)> = Vec::new();
        let nn = changes.room_infos.entries.len();
        let mut ni: usize = 0;
        while ni < nn
            invariant
                nn == changes.room_infos.entries@.len(),
                ni <= nn,
                reasons.wf(),
            decreases nn - ni,
        {
            let rid = changes.room_infos.entries[ni].0.clone();
            let reason = match reasons.get(&rid) {
                Some(r) => *r,
                None => NotableReasons::none(),
            };
            room_info_notable_updates.push((rid, reason));
            ni += 1;
        }

        let out = SyncOutput {
            rooms_join,
            rooms_leave,
            rooms_invite,
            rooms_knock,
            presence: response.presence.dup(),
            account_data: response.account_data.dup(),
            to_device,
            notifications,
            room_info_notable_updates,
            member_updates,
            ignored_user_list_publish: publish,
            crypto_commands,
        };

        proof {
            // the claim at the full prefixes, over the final command list
            assert forall|rid: Seq<char>|
                #![trigger infos_after.contains_key(rid)]
                spec_sync_claim(
                    response,
                    rid,
                    response.join@.len() as int,
                    response.leave@.len() as int,
                    response.invite@.len() as int,
                    response.knock@.len() as int,
                    infos_after,
                    out.crypto_commands@,
                    pre_store,
                    crypto_enabled,
                ) by {
                assert(spec_sync_claim(
                    response,
                    rid,
                    jlen as int,
                    llen as int,
                    ilen as int,
                    klen as int,
                    infos_after,
                    cmds_after,
                    pre_store,
                    crypto_enabled,
                ));
            }
            // the commit wrote every pending summary
            assert forall|k: Seq<char>|
                #![trigger infos_after.contains_key(k)]
                infos_after.contains_key(k) implies committed.rooms.contains_key(k)
                && committed.rooms[k].info == infos_after[k] by {
                assert(changes@.room_infos == infos_after);
            }
            lemma_commit_realizes_post(
                response,
                pre_store,
                committed,
                self.state_store@,
                infos_after,
                out.crypto_commands@,
                crypto_enabled,
            );
        }
        out
    }
}

/// The recorded member events after folding a prefix of a members
/// response: every parsed event lands under (room, member type, state key).
pub open spec fn spec_folded_member_state(
    m: Map<(Seq<char>, Seq<char>, Seq<char>), crate::events::StateEventInputV>,
    room: Seq<char>,
    chunk: Seq<crate::events::MemberEventInput>,
    n: int,
) -> Map<(Seq<char>, Seq<char>, Seq<char>), crate::events::StateEventInputV>
    decreases n,
{
    if n <= 0 {
        m
    } else {
        let prev = spec_folded_member_state(m, room, chunk, n - 1);
        match chunk[n - 1].parsed {
            Some(member) => prev.insert(
                (room, "m.room.member"@, member.state_key@),
                crate::events::StateEventInputV {
                    raw: chunk[n - 1].raw@,
                    parsed: Some(
                        crate::events::StateEventModelV {
                            event_type: "m.room.member"@,
                            state_key: member.state_key@,
                            sender: member.sender@,
                            content: crate::events::StateContentV::Member(
                                member.content.deep_view(),
                            ),
                        },
                    ),
                },
            ),
            None => prev,
        }
    }
}

/// The display-name buckets a members response builds: per display name,
/// the active members of original events carrying it.
pub open spec fn spec_folded_member_buckets(
    b: Map<(Seq<char>, Seq<char>), Set<Seq<char>>>,
    room: Seq<char>,
    chunk: Seq<crate::events::MemberEventInput>,
    n: int,
) -> Map<(Seq<char>, Seq<char>), Set<Seq<char>>>
    decreases n,
{
    if n <= 0 {
        b
    } else {
        let prev = spec_folded_member_buckets(b, room, chunk, n - 1);
        match chunk[n - 1].parsed {
            Some(member) => if member.is_original && member.content.membership.spec_is_active() {
                match member.content.displayname {
                    Some(name) => prev.insert(
                        (room, name@),
                        (if prev.contains_key((room, name@)) {
                            prev[(room, name@)]
                        } else {
                            Set::empty()
                        }).insert(member.state_key@),
                    ),
                    None => prev,
                }
            } else {
                prev
            },
            None => prev,
        }
    }
}

/// The active members a members response names.
pub open spec fn spec_chunk_active_members(
    s: Set<Seq<char>>,
    chunk: Seq<crate::events::MemberEventInput>,
    n: int,
) -> Set<Seq<char>>
    decreases n,
{
    if n <= 0 {
        s
    } else {
        let prev = spec_chunk_active_members(s, chunk, n - 1);
        match chunk[n - 1].parsed {
            Some(member) => if member.content.membership.spec_is_active() {
                prev.insert(member.state_key@)
            } else {
                prev
            },
            None => prev,
        }
    }
}

/// A members response, as plain data.
pub struct MembersRequest {
    pub membership: Option<String>,
    pub not_membership: Option<String>,
    pub at: Option<String>,
}

pub struct MembersResponse {
    pub chunk: Vec<crate::events::MemberEventInput>,
}

/// What acting on a members response asks of the host.
pub struct MembersOutput {
    /// False when the room is unknown and nothing was done.
    pub known_room: bool,
    /// The member-update broadcast must reload in full.
    pub full_reload: bool,
    /// The crypto calls the host must make.
    pub crypto_commands: Vec<CryptoCommand>,
}

/// What sharing a room key asks of the host.
pub struct RoomKeyShareRequest {
    pub room_id: String,
    pub members: Vec<String>,
    pub encryption_event: crate::events::EncryptionContent,
    pub history_visibility: crate::events::HistoryVisibility,
    pub strategy: CollectStrategyModel,
}

impl BaseClient {
    /// Change a room's lifecycle state by an explicit signal, persisting the
    /// new summary; the own member event changed, so the members are marked
    /// missing and the state partially synchronized. The returned reasons
    /// tell the host whether a membership tick is owed to observers.
    fn set_room_state(&mut self, room_id: &String, target: RoomState) -> (r: (
        Room,
        NotableReasons,
    ))
        requires
            old(self).wf(),
        ensures
            final(self).wf(),
            final(self).session == old(self).session,
            final(self).state_store@.rooms.contains_key(room_id@),
            final(self).state_store@.rooms[room_id@].info.state == target,
            final(self).state_store@.sync_token == old(self).state_store@.sync_token,
            r.0.deep_view() == final(self).state_store@.rooms[room_id@],
            // the membership tick fires exactly when a known room changed state
            r.1 == (NotableReasons {
                membership: old(self).state_store@.rooms.contains_key(room_id@) && old(
                    self,
                ).state_store@.rooms[room_id@].info.state != target,
                ..NotableReasons::spec_none()
            }),
            // an already matching room is left untouched
            (old(self).state_store@.rooms.contains_key(room_id@) && old(self).state_store@.rooms[room_id@].info.state == target) ==> final(self).state_store@
                == old(self).state_store@,
            // otherwise the members go missing and the state is partial
            !(old(self).state_store@.rooms.contains_key(room_id@) && old(self).state_store@.rooms[room_id@].info.state == target) && old(self).state_store@.rooms.contains_key(room_id@) ==> {
                let info = final(self).state_store@.rooms[room_id@].info;
                &&& info.members_sync_status == MembersSyncStatus::Missing
                &&& info.state_sync_status == (if old(self).state_store@.rooms[room_id@].info.state_sync_status == crate::room::StateSyncStatus::FullySynced {
                    crate::room::StateSyncStatus::FullySynced
                } else {
                    crate::room::StateSyncStatus::PartiallySynced
                })
            },
    {
        let ghost pre_rooms = self.state_store@.rooms;
        self.state_store.get_or_create_room(room_id, target);
        let current = match self.state_store.room(room_id) {
            Some(room) => room.dup(),
            None => unreached(),
        };
        if current.info.state == target {
            proof {
                assert(current.info.state == current.deep_view().info.state);
                if pre_rooms.contains_key(room_id@) {
                    assert(pre_rooms[room_id@].info.state == target);
                }
            }
            return (current, NotableReasons::none());
        }
        proof {
            assert(pre_rooms.contains_key(room_id@));
        }
        let mut info = current.info.dup();
        info.set_state(target);
        info.mark_state_partially_synced();
        info.mark_members_missing();
        let ghost vv = info.deep_view();
        let mut changes = StateChanges::new(None);
        changes.add_room(room_id, info);
        self.state_store.save_changes(&changes);
        proof {
            assert(changes@.room_infos.contains_key(room_id@));
            assert(changes@.room_infos[room_id@] == vv);
            assert(self.state_store@.rooms.contains_key(room_id@));
            assert(self.state_store@.rooms[room_id@].info == vv);
        }
        let room = match self.state_store.room(room_id) {
            Some(room) => room.dup(),
            None => unreached(),
        };
        (room, NotableReasons { membership: true, ..NotableReasons::none() })
    }

    /// The user joined the room: update and persist its state. The second
    /// part of the answer says whether observers are owed a membership tick.
    pub fn room_joined(&mut self, room_id: &String) -> (r: (Room, NotableReasons))
        requires
            old(self).wf(),
        ensures
            final(self).wf(),
            final(self).session == old(self).session,
            final(self).state_store@.rooms.contains_key(room_id@),
            final(self).state_store@.rooms[room_id@].info.state == RoomState::Joined,
            r.0.deep_view() == final(self).state_store@.rooms[room_id@],
            r.1.membership == (old(self).state_store@.rooms.contains_key(room_id@) && old(self).state_store@.rooms[room_id@].info.state != RoomState::Joined),
            r.1.membership ==> final(self).state_store@.rooms[room_id@].info.members_sync_status
                == MembersSyncStatus::Missing,
    {
        self.set_room_state(room_id, RoomState::Joined)
    }

    /// The user left the room: update and persist its state.
    pub fn room_left(&mut self, room_id: &String) -> (r: NotableReasons)
        requires
            old(self).wf(),
        ensures
            final(self).wf(),
            final(self).session == old(self).session,
            final(self).state_store@.rooms.contains_key(room_id@),
            final(self).state_store@.rooms[room_id@].info.state == RoomState::Left,
            r.membership == (old(self).state_store@.rooms.contains_key(room_id@) && old(self).state_store@.rooms[room_id@].info.state != RoomState::Left),
            r.membership ==> final(self).state_store@.rooms[room_id@].info.members_sync_status
                == MembersSyncStatus::Missing,
    {
        let (_room, reasons) = self.set_room_state(room_id, RoomState::Left);
        reasons
    }

    /// The user knocked on the room: update and persist its state.
    pub fn room_knocked(&mut self, room_id: &String) -> (r: (Room, NotableReasons))
        requires
            old(self).wf(),
        ensures
            final(self).wf(),
            final(self).session == old(self).session,
            final(self).state_store@.rooms.contains_key(room_id@),
            final(self).state_store@.rooms[room_id@].info.state == RoomState::Knocked,
            r.0.deep_view() == final(self).state_store@.rooms[room_id@],
            r.1.membership == (old(self).state_store@.rooms.contains_key(room_id@) && old(self).state_store@.rooms[room_id@].info.state != RoomState::Knocked),
            r.1.membership ==> final(self).state_store@.rooms[room_id@].info.members_sync_status
                == MembersSyncStatus::Missing,
    {
        self.set_room_state(room_id, RoomState::Knocked)
    }

    /// The session a cryptographic engine needs; without one, the Olm
    /// machinery cannot be rebuilt.
    pub fn olm_session_meta(&self) -> (r: Result<&SessionMeta, EngineError>)
        ensures
            self.session is Some ==> r == Result::<&SessionMeta, EngineError>::Ok(
                &self.session.unwrap(),
            ),
            self.session is None ==> r == Result::<&SessionMeta, EngineError>::Err(
                EngineError::OlmMissingSession,
            ),
    {
        match &self.session {
            Some(meta) => Ok(meta),
            None => Err(EngineError::OlmMissingSession),
        }
    }

    /// Receive the full member list of a room.
    ///
    /// The request must have been made without membership filters: display
    /// names can only be disambiguated over the complete list. A filtered
    /// request is rejected without touching the store.
    pub fn receive_all_members(
        &mut self,
        room_id: &String,
        request: &MembersRequest,
        response: &MembersResponse,
    ) -> (r: Result<MembersOutput, EngineError>)
        requires
            old(self).wf(),
        ensures
            final(self).wf(),
            final(self).session == old(self).session,
            (request.membership is Some || request.not_membership is Some || request.at is Some)
                ==> r == Result::<MembersOutput, EngineError>::Err(
                EngineError::InvalidReceiveMembersParameters,
            ) && *final(self) == *old(self),
            !(request.membership is Some || request.not_membership is Some || request.at is Some)
                && !old(self).state_store@.rooms.contains_key(room_id@) ==> r is Ok && *final(self)
                == *old(self),
            !(request.membership is Some || request.not_membership is Some || request.at is Some)
                && old(self).state_store@.rooms.contains_key(room_id@) ==> r is Ok && {
                let out = r.unwrap();
                &&& out.known_room
                &&& out.full_reload
                // the member list is whole again
                &&& final(self).state_store@.rooms[room_id@].info.members_sync_status
                    == MembersSyncStatus::Synced
                // every parsed member event is committed under its subject
                &&& final(self).state_store@.state == old(self).state_store@.state.union_prefer_right(
                    spec_folded_member_state(
                        Map::empty(),
                        room_id@,
                        response.chunk@,
                        response.chunk@.len() as int,
                    ),
                )
                // the committed buckets hold the active members per display
                // name, as the response gives them
                &&& final(self).state_store@.ambiguity_maps == old(self).state_store@.ambiguity_maps.union_prefer_right(
                    spec_folded_member_buckets(
                        Map::empty(),
                        room_id@,
                        response.chunk@,
                        response.chunk@.len() as int,
                    ),
                )
                // an encrypted room gets one tracking command, covering
                // exactly the active members named by the response
                &&& (old(self).crypto_enabled && spec_store_room_encrypted(
                    old(self).state_store@,
                    room_id@,
                ) ==> out.crypto_commands@.len() == 1 && match out.crypto_commands@[0] {
                    CryptoCommand::UpdateTrackedUsers { users } => forall|u: Seq<char>|
                        #![auto]
                        crate::store::spec_contains_str(users@, u) == spec_chunk_active_members(
                            Set::empty(),
                            response.chunk@,
                            response.chunk@.len() as int,
                        ).contains(u),
                    _ => false,
                })
                &&& (!(old(self).crypto_enabled && spec_store_room_encrypted(
                    old(self).state_store@,
                    room_id@,
                )) ==> out.crypto_commands@.len() == 0)
            },
    {
        if request.membership.is_some() || request.not_membership.is_some()
            || request.at.is_some() {
            return Err(EngineError::InvalidReceiveMembersParameters);
        }
        if self.state_store.room(room_id).is_none() {
            return Ok(
                MembersOutput { known_room: false, full_reload: false, crypto_commands: Vec::new() },
            );
        }
        let mut changes = StateChanges::new(None);
        let mut user_ids = StrSet::new();
        let mut buckets: KMap<(String, String), StrSet> = KMap::new();
        let member_type: String = "m.room.member".to_owned();
        let n = response.chunk.len();
        proof {
            assert(changes@.state =~= spec_folded_member_state(
                Map::empty(),
                room_id@,
                response.chunk@,
                0,
            ));
            assert(buckets@ =~= spec_folded_member_buckets(
                Map::empty(),
                room_id@,
                response.chunk@,
                0,
            ));
            assert(user_ids@ =~= spec_chunk_active_members(
                Set::empty(),
                response.chunk@,
                0,
            ));
        }
        for i in 0..n
            invariant
                n == response.chunk@.len(),
                changes.wf(),
                user_ids.wf(),
                buckets.wf(),
                member_type@ == "m.room.member"@,
                changes@.sync_token is None,
                changes@.state == spec_folded_member_state(
                    Map::empty(),
                    room_id@,
                    response.chunk@,
                    i as int,
                ),
                buckets@ == spec_folded_member_buckets(
                    Map::empty(),
                    room_id@,
                    response.chunk@,
                    i as int,
                ),
                user_ids@ == spec_chunk_active_members(Set::empty(), response.chunk@, i as int),
        {
            let ev = &response.chunk[i];
            match &ev.parsed {
                Some(member) => {
                    if member.content.membership.is_active() {
                        user_ids.insert(member.state_key.clone());
                    }
                    // the disambiguation buckets: active members of original
                    // events with a display name, as the display-name law
                    // demands
                    if member.is_original && member.content.membership.is_active() {
                        if let Some(name) = &member.content.displayname {
                            let bkey = (room_id.clone(), name.clone());
                            let mut set = match buckets.get(&bkey) {
                                Some(s) => s.dup_set(),
                                None => StrSet::new(),
                            };
                            set.insert_any(member.state_key.clone());
                            buckets.insert(bkey, set);
                        }
                    }
                    // profiles follow the same self-declared rule as in a
                    // sync timeline
                    let model = crate::events::StateEventModel {
                        event_type: member_type.clone(),
                        state_key: member.state_key.clone(),
                        sender: member.sender.clone(),
                        content: StateContent::Member(member.content.dup()),
                    };
                    handle_room_member_event_for_profiles(room_id, &model, &mut changes);
                    changes.add_state_event(
                        room_id,
                        &member_type,
                        &member.state_key,
                        StateEventInput { raw: ev.raw.clone(), parsed: Some(model) },
                    );
                    proof {
                        assert(changes@.state =~= spec_folded_member_state(
                            Map::empty(),
                            room_id@,
                            response.chunk@,
                            i as int + 1,
                        ));
                        assert(buckets@ =~= spec_folded_member_buckets(
                            Map::empty(),
                            room_id@,
                            response.chunk@,
                            i as int + 1,
                        ));
                    }
                },
                None => {},
            }
        }

        let mut crypto_commands: Vec<CryptoCommand> = Vec::new();
        let encrypted = match self.state_store.room(room_id) {
            Some(room) => room.info.is_encrypted(),
            None => false,
        };
        if self.crypto_enabled && encrypted {
            let listed = user_ids.to_vec();
            proof {
                assert forall|u: Seq<char>| #![auto]
                    crate::store::spec_contains_str(listed@, u) == user_ids@.contains(u) by {
                    StrSet::lemma_set_contains(user_ids.items@, u);
                    if crate::store::spec_contains_str(listed@, u) {
                        let w = choose|w: int| 0 <= w < listed@.len() && listed@[w]@ == u;
                        assert(user_ids.items@[w]@ == u);
                    }
                    if user_ids@.contains(u) {
                        let w = choose|w: int|
                            0 <= w < user_ids.items@.len() && user_ids.items@[w]@ == u;
                        assert(listed@[w]@ == u);
                    }
                }
            }
            crypto_commands.push(CryptoCommand::UpdateTrackedUsers { users: listed });
        }

        changes.ambiguity_maps = buckets;
        let mut info = match self.state_store.room(room_id) {
            Some(room) => room.info.dup(),
            None => unreached(),
        };
        info.mark_members_synced();
        let ghost vv = info.deep_view();
        changes.add_room(room_id, info);
        self.state_store.save_changes(&changes);
        proof {
            assert(changes@.room_infos.contains_key(room_id@));
            assert(changes@.room_infos[room_id@] == vv);
            assert(self.state_store@.rooms.contains_key(room_id@));
            assert(self.state_store@.rooms[room_id@].info == vv);
            assert(self.state_store@.rooms[room_id@].info.members_sync_status
                == MembersSyncStatus::Synced);
        }
        Ok(MembersOutput { known_room: true, full_reload: true, crypto_commands })
    }

    /// What sharing this room's key takes: the recipients are the joined
    /// members when history is visible to joined members only, the active
    /// members otherwise. Without an encryption event there is no key to
    /// share; an unknown room has too little data.
    pub fn share_room_key(&self, room_id: &String) -> (r: Result<
        RoomKeyShareRequest,
        EngineError,
    >)
        requires
            self.wf(),
            self.crypto_enabled,
        ensures
            !self.state_store@.rooms.contains_key(room_id@) ==> r == Result::<
                RoomKeyShareRequest,
                EngineError,
            >::Err(EngineError::InsufficientData),
            self.state_store@.rooms.contains_key(room_id@)
                && self.state_store@.rooms[room_id@].info.encryption_event is None ==> r
                == Result::<RoomKeyShareRequest, EngineError>::Err(
                EngineError::EncryptionNotEnabled,
            ),
            self.state_store@.rooms.contains_key(room_id@)
                && self.state_store@.rooms[room_id@].info.encryption_event is Some ==> r is Ok && {
                let req = r.unwrap();
                let filter = if self.state_store@.rooms[room_id@].info.history_visibility == Some(
                    crate::events::HistoryVisibility::Joined,
                ) {
                    MembershipsFilter {
                        join: true,
                        invite: false,
                        leave: false,
                        ban: false,
                        knock: false,
                    }
                } else {
                    MembershipsFilter {
                        join: true,
                        invite: true,
                        leave: false,
                        ban: false,
                        knock: false,
                    }
                };
                &&& req.room_id@ == room_id@
                &&& req.strategy == self.room_key_recipient_strategy
                &&& Some(req.encryption_event.deep_view())
                    == self.state_store@.rooms[room_id@].info.encryption_event
                &&& req.history_visibility == (match self.state_store@.rooms[room_id@].info.history_visibility {
                    Some(v) => v,
                    None => crate::events::HistoryVisibility::Shared,
                })
                &&& (forall|u: Seq<char>|
                    #![auto]
                    crate::store::spec_contains_str(req.members@, u) <==> (
                    self.state_store@.state.contains_key((room_id@, "m.room.member"@, u))
                        && crate::store::spec_member_matches(
                        self.state_store@.state[(room_id@, "m.room.member"@, u)],
                        filter,
                    )))
            },
    {
        let room = match self.state_store.room(room_id) {
            Some(room) => room,
            None => {
                return Err(EngineError::InsufficientData);
            },
        };
        let encryption_event = match &room.info.encryption_event {
            Some(e) => e.dup(),
            None => {
                return Err(EngineError::EncryptionNotEnabled);
            },
        };
        let history_visibility = match &room.info.history_visibility {
            Some(v) => *v,
            None => crate::events::HistoryVisibility::Shared,
        };
        // History visible to joined members only: do not share with invited
        // members.
        let filter = if history_visibility == crate::events::HistoryVisibility::Joined {
            MembershipsFilter::joined()
        } else {
            MembershipsFilter::active()
        };
        let members = self.state_store.get_user_ids(room_id, filter);
        proof {
            assert(room.deep_view().info.history_visibility
                == self.state_store@.rooms[room_id@].info.history_visibility);
        }
        Ok(
            RoomKeyShareRequest {
                room_id: room_id.clone(),
                members,
                encryption_event,
                history_visibility,
                strategy: self.room_key_recipient_strategy,
            },
        )
    }
}

/// The subject of a member event, when it parsed.
pub open spec fn spec_member_event_key(e: crate::events::MemberEventInput) -> Seq<char> {
    match e.parsed {
        Some(m) => m.state_key@,
        None => arbitrary(),
    }
}

} // verus!
