//! The per-sync change set: every update a sync response produces is
//! accumulated here and committed atomically at the end of the call.
//!
//! Intermediate reads during one sync consult this change set before the
//! store.

use vstd::prelude::*;

use crate::events::{
    AccountDataEvent, AccountDataEventV, MemberContent, MemberContentV, RoomAccountDataEvent,
    RoomAccountDataEventV, StateEventInput, StateEventInputV,
};
use crate::kmap::{KMap, StrSet};
use crate::room::{RoomInfo, RoomInfoV};
use crate::util::DupView;

verus! {

/// The pending updates of one sync call, keyed by room id where relevant.
pub struct StateChanges {
    /// The sync token that produced these changes.
    pub sync_token: Option<String>,
    /// New room summaries, by room id.
    pub room_infos: KMap<String, RoomInfo>,
    /// State events, by (room id, event type, state key).
    pub state: KMap<(String, String, String), StateEventInput>,
    /// Stripped state events, by (room id, event type, state key).
    pub stripped_state: KMap<(String, String, String), StateEventInput>,
    /// Redactions, by (room id, redacted event id); the value is the raw
    /// redaction event.
    pub redactions: KMap<(String, String), String>,
    /// Global account data, by event type.
    pub account_data: KMap<String, AccountDataEvent>,
    /// Per-room account data, by (room id, event type).
    pub room_account_data: KMap<(String, String), RoomAccountDataEvent>,
    /// Presence events, by sender.
    pub presence: KMap<String, String>,
    /// Read receipts, by room id.
    pub receipts: KMap<String, String>,
    /// Display-name buckets, by (room id, display name).
    pub ambiguity_maps: KMap<(String, String), StrSet>,
    /// Self-declared member profiles, by (room id, user id).
    pub profiles: KMap<(String, String), MemberContent>,
    /// Profiles to drop at commit, as (room id, user id) pairs.
    pub profiles_to_delete: Vec<(String, String)>,
}

/// The mathematical shadow of a change set.
#[verifier::ext_equal]
pub struct StateChangesV {
    pub sync_token: Option<Seq<char>>,
    pub room_infos: Map<Seq<char>, RoomInfoV>,
    pub state: Map<(Seq<char>, Seq<char>, Seq<char>), StateEventInputV>,
    pub stripped_state: Map<(Seq<char>, Seq<char>, Seq<char>), StateEventInputV>,
    pub redactions: Map<(Seq<char>, Seq<char>), Seq<char>>,
    pub account_data: Map<Seq<char>, AccountDataEventV>,
    pub room_account_data: Map<(Seq<char>, Seq<char>), RoomAccountDataEventV>,
    pub presence: Map<Seq<char>, Seq<char>>,
    pub receipts: Map<Seq<char>, Seq<char>>,
    pub ambiguity_maps: Map<(Seq<char>, Seq<char>), Set<Seq<char>>>,
    pub profiles: Map<(Seq<char>, Seq<char>), MemberContentV>,
    pub profiles_to_delete: Seq<(Seq<char>, Seq<char>)>,
}

impl View for StateChanges {
    type V = StateChangesV;

    open spec fn view(&self) -> StateChangesV {
        StateChangesV {
            sync_token: self.sync_token.deep_view(),
            room_infos: self.room_infos@,
            state: self.state@,
            stripped_state: self.stripped_state@,
            redactions: self.redactions@,
            account_data: self.account_data@,
            room_account_data: self.room_account_data@,
            presence: self.presence@,
            receipts: self.receipts@,
            ambiguity_maps: self.ambiguity_maps@,
            profiles: self.profiles@,
            profiles_to_delete: self.profiles_to_delete.deep_view(),
        }
    }
}

impl StateChanges {
    pub open spec fn wf(&self) -> bool {
        &&& self.room_infos.wf()
        &&& self.state.wf()
        &&& self.stripped_state.wf()
        &&& self.redactions.wf()
        &&& self.account_data.wf()
        &&& self.room_account_data.wf()
        &&& self.presence.wf()
        &&& self.receipts.wf()
        &&& self.ambiguity_maps.wf()
        &&& self.profiles.wf()
    }

    /// An empty change set for the given sync token.
    pub fn new(sync_token: Option<String>) -> (r: Self)
        ensures
            r.wf(),
            r@ == (StateChangesV {
                sync_token: sync_token.deep_view(),
                room_infos: Map::empty(),
                state: Map::empty(),
                stripped_state: Map::empty(),
                redactions: Map::empty(),
                account_data: Map::empty(),
                room_account_data: Map::empty(),
                presence: Map::empty(),
                receipts: Map::empty(),
                ambiguity_maps: Map::empty(),
                profiles: Map::empty(),
                profiles_to_delete: Seq::empty(),
            }),
    {
        let r = StateChanges {
            sync_token,
            room_infos: KMap::new(),
            state: KMap::new(),
            stripped_state: KMap::new(),
            redactions: KMap::new(),
            account_data: KMap::new(),
            room_account_data: KMap::new(),
            presence: KMap::new(),
            receipts: KMap::new(),
            ambiguity_maps: KMap::new(),
            profiles: KMap::new(),
            profiles_to_delete: Vec::new(),
        };
        proof {
            assert(r.profiles_to_delete.deep_view() =~= Seq::<(Seq<char>, Seq<char>)>::empty());
        }
        r
    }

    /// Record a new room summary under the given room id.
    pub fn add_room(&mut self, room_id: &String, info: RoomInfo)
        requires
            old(self).wf(),
        ensures
            final(self).wf(),
            final(self)@ == (StateChangesV {
                room_infos: old(self)@.room_infos.insert(room_id@, info.deep_view()),
                ..old(self)@
            }),
    {
        self.room_infos.insert(room_id.clone(), info);
    }

    /// Record a state event under (room, event type, state key).
    pub fn add_state_event(
        &mut self,
        room_id: &String,
        event_type: &String,
        state_key: &String,
        event: StateEventInput,
    )
        requires
            old(self).wf(),
        ensures
            final(self).wf(),
            final(self)@ == (StateChangesV {
                state: old(self)@.state.insert(
                    (room_id@, event_type@, state_key@),
                    event.deep_view(),
                ),
                ..old(self)@
            }),
    {
        self.state.insert((room_id.clone(), event_type.clone(), state_key.clone()), event);
    }

    /// Record a stripped state event under (room, event type, state key).
    pub fn add_stripped_state_event(
        &mut self,
        room_id: &String,
        event_type: &String,
        state_key: &String,
        event: StateEventInput,
    )
        requires
            old(self).wf(),
        ensures
            final(self).wf(),
            final(self)@ == (StateChangesV {
                stripped_state: old(self)@.stripped_state.insert(
                    (room_id@, event_type@, state_key@),
                    event.deep_view(),
                ),
                ..old(self)@
            }),
    {
        self.stripped_state.insert((room_id.clone(), event_type.clone(), state_key.clone()), event);
    }

    /// Record a redaction under (room, redacted event id).
    pub fn add_redaction(&mut self, room_id: &String, redacts: &String, raw: String)
        requires
            old(self).wf(),
        ensures
            final(self).wf(),
            final(self)@ == (StateChangesV {
                redactions: old(self)@.redactions.insert((room_id@, redacts@), raw@),
                ..old(self)@
            }),
    {
        self.redactions.insert((room_id.clone(), redacts.clone()), raw);
    }

    /// Record a global account-data event under its type.
    pub fn add_account_data(&mut self, event: AccountDataEvent)
        requires
            old(self).wf(),
        ensures
            final(self).wf(),
            final(self)@ == (StateChangesV {
                account_data: old(self)@.account_data.insert(
                    event.event_type@,
                    event.deep_view(),
                ),
                ..old(self)@
            }),
    {
        let key = event.event_type.clone();
        self.account_data.insert(key, event);
    }

    /// Record a room account-data event under (room, type).
    pub fn add_room_account_data(&mut self, room_id: &String, event: RoomAccountDataEvent)
        requires
            old(self).wf(),
        ensures
            final(self).wf(),
            final(self)@ == (StateChangesV {
                room_account_data: old(self)@.room_account_data.insert(
                    (room_id@, event.event_type@),
                    event.deep_view(),
                ),
                ..old(self)@
            }),
    {
        let key = (room_id.clone(), event.event_type.clone());
        self.room_account_data.insert(key, event);
    }

    /// Record the read receipts delivered for a room.
    pub fn add_receipts(&mut self, room_id: &String, raw: String)
        requires
            old(self).wf(),
        ensures
            final(self).wf(),
            final(self)@ == (StateChangesV {
                receipts: old(self)@.receipts.insert(room_id@, raw@),
                ..old(self)@
            }),
    {
        self.receipts.insert(room_id.clone(), raw);
    }

    /// Record a self-declared profile.
    pub fn add_profile(&mut self, room_id: &String, user_id: &String, profile: MemberContent)
        requires
            old(self).wf(),
        ensures
            final(self).wf(),
            final(self)@ == (StateChangesV {
                profiles: old(self)@.profiles.insert(
                    (room_id@, user_id@),
                    profile.deep_view(),
                ),
                ..old(self)@
            }),
    {
        self.profiles.insert((room_id.clone(), user_id.clone()), profile);
    }

    /// Record a presence event under its sender.
    pub fn add_presence(&mut self, sender: &String, raw: String)
        requires
            old(self).wf(),
        ensures
            final(self).wf(),
            final(self)@ == (StateChangesV {
                presence: old(self)@.presence.insert(sender@, raw@),
                ..old(self)@
            }),
    {
        self.presence.insert(sender.clone(), raw);
    }

    /// Schedule the removal of a stored profile.
    pub fn add_profile_to_delete(&mut self, room_id: &String, user_id: &String)
        requires
            old(self).wf(),
        ensures
            final(self).wf(),
            final(self)@ == (StateChangesV {
                profiles_to_delete: old(self)@.profiles_to_delete.push((room_id@, user_id@)),
                ..old(self)@
            }),
    {
        let ghost pre = self.profiles_to_delete.deep_view();
        self.profiles_to_delete.push((room_id.clone(), user_id.clone()));
        proof {
            assert(self.profiles_to_delete.deep_view() =~= pre.push((room_id@, user_id@)));
        }
    }
}

} // verus!
