//! Rooms: lifecycle state, the per-room summary (`RoomInfo`) and the folds
//! a sync response applies to it.

use vstd::prelude::*;

use crate::events::{
    EncryptionContent, EncryptionContentV, HistoryVisibility, PowerLevelsContent, PowerLevelsV,
    StateContent, StateContentV, StateEventModel, StateEventModelV,
};
use crate::util::{str_is, DupView};

verus! {

/// Lifecycle state of a room, driven by the bucket it last appeared in.
#[derive(Clone, Copy, Debug, PartialEq, Eq, Structural)]
pub enum RoomState {
    Joined,
    Left,
    Invited,
    Knocked,
    Banned,
}

impl DeepView for RoomState {
    type V = RoomState;

    open spec fn deep_view(&self) -> RoomState {
        *self
    }
}

/// How much of the member list has been synchronized.
#[derive(Clone, Copy, Debug, PartialEq, Eq, Structural)]
pub enum MembersSyncStatus {
    NotSynced,
    Partial,
    Synced,
    /// A limited timeline or an own-membership change invalidated the list.
    Missing,
}

impl DeepView for MembersSyncStatus {
    type V = MembersSyncStatus;

    open spec fn deep_view(&self) -> MembersSyncStatus {
        *self
    }
}

/// How much of the room state has been synchronized.
#[derive(Clone, Copy, Debug, PartialEq, Eq, Structural)]
pub enum StateSyncStatus {
    NotSynced,
    PartiallySynced,
    FullySynced,
}

impl DeepView for StateSyncStatus {
    type V = StateSyncStatus;

    open spec fn deep_view(&self) -> StateSyncStatus {
        *self
    }
}

/// What is known of a room's encryption.
#[derive(Clone, Copy, Debug, PartialEq, Eq, Structural)]
pub enum EncryptionState {
    Unknown,
    Encrypted,
    NotEncrypted,
}

impl DeepView for EncryptionState {
    type V = EncryptionState;

    open spec fn deep_view(&self) -> EncryptionState {
        *self
    }
}

/// The notable tags the engine tracks.
#[derive(Clone, Copy, Debug, PartialEq, Eq, Structural)]
pub struct NotableTags {
    pub favourite: bool,
    pub low_priority: bool,
}

impl DeepView for NotableTags {
    type V = NotableTags;

    open spec fn deep_view(&self) -> NotableTags {
        *self
    }
}

/// Unread counts reported by the server for a room.
#[derive(Clone, Copy, Debug, PartialEq, Eq, Structural)]
pub struct NotificationCounts {
    pub highlight_count: u64,
    pub notification_count: u64,
}

impl DeepView for NotificationCounts {
    type V = NotificationCounts;

    open spec fn deep_view(&self) -> NotificationCounts {
        *self
    }
}

/// Why a committed `RoomInfo` is notable to observers.
#[derive(Clone, Copy, Debug, PartialEq, Eq, Structural)]
pub struct NotableReasons {
    pub membership: bool,
    pub unread_marker: bool,
    pub latest_event: bool,
}

impl DeepView for NotableReasons {
    type V = NotableReasons;

    open spec fn deep_view(&self) -> NotableReasons {
        *self
    }
}

impl NotableReasons {
    pub open spec fn spec_none() -> NotableReasons {
        NotableReasons { membership: false, unread_marker: false, latest_event: false }
    }

    pub fn none() -> (r: NotableReasons)
        ensures
            r == Self::spec_none(),
    {
        NotableReasons { membership: false, unread_marker: false, latest_event: false }
    }
}

/// The newest timeline event suitable for previewing a room.
#[derive(Clone, Debug)]
pub struct LatestEventModel {
    pub raw: String,
    pub event_id: Option<String>,
}

#[verifier::ext_equal]
pub struct LatestEventV {
    pub raw: Seq<char>,
    pub event_id: Option<Seq<char>>,
}

impl DeepView for LatestEventModel {
    type V = LatestEventV;

    open spec fn deep_view(&self) -> LatestEventV {
        LatestEventV { raw: self.raw@, event_id: self.event_id.deep_view() }
    }
}

impl DupView for LatestEventModel {
    fn dup(&self) -> (r: Self) {
        LatestEventModel { raw: self.raw.clone(), event_id: self.event_id.dup() }
    }
}

/// The per-room summary the engine maintains and commits.
#[derive(Clone, Debug)]
pub struct RoomInfo {
    pub room_id: String,
    pub state: RoomState,
    pub prev_batch: Option<String>,
    pub encryption: EncryptionState,
    pub encryption_event: Option<EncryptionContent>,
    pub members_sync_status: MembersSyncStatus,
    pub state_sync_status: StateSyncStatus,
    pub is_marked_unread: bool,
    pub notable_tags: NotableTags,
    pub notification_counts: NotificationCounts,
    pub room_version: Option<String>,
    pub power_levels: Option<PowerLevelsContent>,
    pub name: Option<String>,
    pub canonical_alias: Option<String>,
    pub history_visibility: Option<HistoryVisibility>,
    pub joined_member_count: u64,
    pub invited_member_count: u64,
    pub latest_event: Option<LatestEventModel>,
}

#[verifier::ext_equal]
pub struct RoomInfoV {
    pub room_id: Seq<char>,
    pub state: RoomState,
    pub prev_batch: Option<Seq<char>>,
    pub encryption: EncryptionState,
    pub encryption_event: Option<EncryptionContentV>,
    pub members_sync_status: MembersSyncStatus,
    pub state_sync_status: StateSyncStatus,
    pub is_marked_unread: bool,
    pub notable_tags: NotableTags,
    pub notification_counts: NotificationCounts,
    pub room_version: Option<Seq<char>>,
    pub power_levels: Option<PowerLevelsV>,
    pub name: Option<Seq<char>>,
    pub canonical_alias: Option<Seq<char>>,
    pub history_visibility: Option<HistoryVisibility>,
    pub joined_member_count: u64,
    pub invited_member_count: u64,
    pub latest_event: Option<LatestEventV>,
}

impl DeepView for RoomInfo {
    type V = RoomInfoV;

    open spec fn deep_view(&self) -> RoomInfoV {
        RoomInfoV {
            room_id: self.room_id@,
            state: self.state,
            prev_batch: self.prev_batch.deep_view(),
            encryption: self.encryption,
            encryption_event: self.encryption_event.deep_view(),
            members_sync_status: self.members_sync_status,
            state_sync_status: self.state_sync_status,
            is_marked_unread: self.is_marked_unread,
            notable_tags: self.notable_tags,
            notification_counts: self.notification_counts,
            room_version: self.room_version.deep_view(),
            power_levels: self.power_levels.deep_view(),
            name: self.name.deep_view(),
            canonical_alias: self.canonical_alias.deep_view(),
            history_visibility: self.history_visibility,
            joined_member_count: self.joined_member_count,
            invited_member_count: self.invited_member_count,
            latest_event: self.latest_event.deep_view(),
        }
    }
}

impl DupView for RoomInfo {
    fn dup(&self) -> (r: Self) {
        RoomInfo {
            room_id: self.room_id.clone(),
            state: self.state,
            prev_batch: self.prev_batch.dup(),
            encryption: self.encryption,
            encryption_event: self.encryption_event.dup(),
            members_sync_status: self.members_sync_status,
            state_sync_status: self.state_sync_status,
            is_marked_unread: self.is_marked_unread,
            notable_tags: self.notable_tags,
            notification_counts: self.notification_counts,
            room_version: self.room_version.dup(),
            power_levels: self.power_levels.dup(),
            name: self.name.dup(),
            canonical_alias: self.canonical_alias.dup(),
            history_visibility: self.history_visibility,
            joined_member_count: self.joined_member_count,
            invited_member_count: self.invited_member_count,
            latest_event: self.latest_event.dup(),
        }
    }
}

impl RoomInfo {
    /// The view of a fresh summary for a room first seen in the given state.
    pub open spec fn spec_new(room_id: Seq<char>, state: RoomState) -> RoomInfoV {
        RoomInfoV {
            room_id,
            state,
            prev_batch: None,
            encryption: EncryptionState::Unknown,
            encryption_event: None,
            members_sync_status: MembersSyncStatus::NotSynced,
            state_sync_status: StateSyncStatus::NotSynced,
            is_marked_unread: false,
            notable_tags: NotableTags { favourite: false, low_priority: false },
            notification_counts: NotificationCounts { highlight_count: 0, notification_count: 0 },
            room_version: None,
            power_levels: None,
            name: None,
            canonical_alias: None,
            history_visibility: None,
            joined_member_count: 0,
            invited_member_count: 0,
            latest_event: None,
        }
    }

    /// A fresh summary for a room first seen in the given lifecycle state.
    pub fn new(room_id: String, state: RoomState) -> (r: RoomInfo)
        ensures
            r.deep_view() == Self::spec_new(room_id@, state),
    {
        RoomInfo {
            room_id,
            state,
            prev_batch: None,
            encryption: EncryptionState::Unknown,
            encryption_event: None,
            members_sync_status: MembersSyncStatus::NotSynced,
            state_sync_status: StateSyncStatus::NotSynced,
            is_marked_unread: false,
            notable_tags: NotableTags { favourite: false, low_priority: false },
            notification_counts: NotificationCounts { highlight_count: 0, notification_count: 0 },
            room_version: None,
            power_levels: None,
            name: None,
            canonical_alias: None,
            history_visibility: None,
            joined_member_count: 0,
            invited_member_count: 0,
            latest_event: None,
        }
    }

    pub fn set_state(&mut self, state: RoomState)
        ensures
            final(self).deep_view() == (RoomInfoV { state, ..old(self).deep_view() }),
    {
        self.state = state;
    }

    pub fn mark_as_joined(&mut self)
        ensures
            final(self).deep_view() == (RoomInfoV {
                state: RoomState::Joined,
                ..old(self).deep_view()
            }),
    {
        self.state = RoomState::Joined;
    }

    pub fn mark_as_left(&mut self)
        ensures
            final(self).deep_view() == (RoomInfoV {
                state: RoomState::Left,
                ..old(self).deep_view()
            }),
    {
        self.state = RoomState::Left;
    }

    pub fn mark_as_invited(&mut self)
        ensures
            final(self).deep_view() == (RoomInfoV {
                state: RoomState::Invited,
                ..old(self).deep_view()
            }),
    {
        self.state = RoomState::Invited;
    }

    pub fn mark_as_knocked(&mut self)
        ensures
            final(self).deep_view() == (RoomInfoV {
                state: RoomState::Knocked,
                ..old(self).deep_view()
            }),
    {
        self.state = RoomState::Knocked;
    }

    pub fn mark_members_synced(&mut self)
        ensures
            final(self).deep_view() == (RoomInfoV {
                members_sync_status: MembersSyncStatus::Synced,
                ..old(self).deep_view()
            }),
    {
        self.members_sync_status = MembersSyncStatus::Synced;
    }

    pub fn mark_members_missing(&mut self)
        ensures
            final(self).deep_view() == (RoomInfoV {
                members_sync_status: MembersSyncStatus::Missing,
                ..old(self).deep_view()
            }),
    {
        self.members_sync_status = MembersSyncStatus::Missing;
    }

    pub fn mark_state_fully_synced(&mut self)
        ensures
            final(self).deep_view() == (RoomInfoV {
                state_sync_status: StateSyncStatus::FullySynced,
                ..old(self).deep_view()
            }),
    {
        self.state_sync_status = StateSyncStatus::FullySynced;
    }

    /// Record that only part of the state was delivered. Never downgrades a
    /// fully synchronized room: within a sync batch the status is monotone.
    pub fn mark_state_partially_synced(&mut self)
        ensures
            final(self).deep_view() == (RoomInfoV {
                state_sync_status: if old(self).state_sync_status
                    == StateSyncStatus::FullySynced {
                    StateSyncStatus::FullySynced
                } else {
                    StateSyncStatus::PartiallySynced
                },
                ..old(self).deep_view()
            }),
    {
        if self.state_sync_status != StateSyncStatus::FullySynced {
            self.state_sync_status = StateSyncStatus::PartiallySynced;
        }
    }

    pub fn set_prev_batch(&mut self, prev_batch: &Option<String>)
        ensures
            final(self).deep_view() == (RoomInfoV {
                prev_batch: prev_batch.deep_view(),
                ..old(self).deep_view()
            }),
    {
        self.prev_batch = prev_batch.dup();
    }

    pub fn update_notification_count(&mut self, counts: NotificationCounts)
        ensures
            final(self).deep_view() == (RoomInfoV {
                notification_counts: counts,
                ..old(self).deep_view()
            }),
    {
        self.notification_counts = counts;
    }

    /// Fold the server's room summary: member counts, when given.
    pub fn update_from_summary(&mut self, joined: &Option<u64>, invited: &Option<u64>)
        ensures
            final(self).deep_view() == (RoomInfoV {
                joined_member_count: match *joined {
                    Some(n) => n,
                    None => old(self).joined_member_count,
                },
                invited_member_count: match *invited {
                    Some(n) => n,
                    None => old(self).invited_member_count,
                },
                ..old(self).deep_view()
            }),
    {
        if let Some(n) = joined {
            self.joined_member_count = *n;
        }
        if let Some(n) = invited {
            self.invited_member_count = *n;
        }
    }

    /// Joined plus invited members, saturating.
    pub open spec fn spec_active_members_count(&self) -> u64 {
        if self.joined_member_count + self.invited_member_count <= u64::MAX {
            (self.joined_member_count + self.invited_member_count) as u64
        } else {
            u64::MAX
        }
    }

    pub fn active_members_count(&self) -> (r: u64)
        ensures
            r == self.spec_active_members_count(),
    {
        if self.joined_member_count <= u64::MAX - self.invited_member_count {
            self.joined_member_count + self.invited_member_count
        } else {
            u64::MAX
        }
    }

    /// The fold one state event applies to a room summary. Member events do
    /// not change the summary, and events whose state key is not empty are
    /// ignored.
    pub open spec fn spec_applied_state_event(info: RoomInfoV, e: StateEventModelV) -> RoomInfoV {
        if e.state_key.len() != 0 {
            info
        } else {
            match e.content {
                StateContentV::PowerLevels(p) => RoomInfoV { power_levels: Some(p), ..info },
                StateContentV::Encryption(c) => RoomInfoV {
                    encryption: EncryptionState::Encrypted,
                    encryption_event: Some(c),
                    ..info
                },
                StateContentV::HistoryVisibility(v) => RoomInfoV {
                    history_visibility: Some(v),
                    ..info
                },
                StateContentV::Create { room_version } => RoomInfoV {
                    room_version: Some(room_version),
                    ..info
                },
                StateContentV::Name { name } => RoomInfoV { name: Some(name), ..info },
                StateContentV::CanonicalAlias { alias } => RoomInfoV {
                    canonical_alias: alias,
                    ..info
                },
                _ => info,
            }
        }
    }

    /// The fold of a whole sequence of state events, in order.
    pub open spec fn spec_applied_state_events(info: RoomInfoV, es: Seq<StateEventModelV>) -> RoomInfoV
        decreases es.len(),
    {
        if es.len() == 0 {
            info
        } else {
            Self::spec_applied_state_event(
                Self::spec_applied_state_events(info, es.drop_last()),
                es.last(),
            )
        }
    }

    /// Folding the same state event twice is the same as folding it once:
    /// each event writes absolute values, so a replayed stripped-state
    /// event leaves the summary where the first application put it.
    pub proof fn lemma_state_event_fold_idempotent(info: RoomInfoV, e: StateEventModelV)
        ensures
            Self::spec_applied_state_event(Self::spec_applied_state_event(info, e), e)
                == Self::spec_applied_state_event(info, e),
    {
    }

    pub fn handle_state_event(&mut self, e: &StateEventModel)
        ensures
            final(self).deep_view() == Self::spec_applied_state_event(
                old(self).deep_view(),
                e.deep_view(),
            ),
    {
        if !e.state_key.as_str().is_empty() {
            return;
        }
        match &e.content {
            StateContent::PowerLevels(p) => {
                self.power_levels = Some(p.dup());
            },
            StateContent::Encryption(c) => {
                self.encryption = EncryptionState::Encrypted;
                self.encryption_event = Some(c.dup());
            },
            StateContent::HistoryVisibility(v) => {
                self.history_visibility = Some(*v);
            },
            StateContent::Create { room_version } => {
                self.room_version = Some(room_version.clone());
            },
            StateContent::Name { name } => {
                self.name = Some(name.clone());
            },
            StateContent::CanonicalAlias { alias } => {
                self.canonical_alias = alias.dup();
            },
            _ => {},
        }
    }

    /// Whether the requested required states ask for the encryption event.
    pub open spec fn spec_requests_encryption(req: Seq<(Seq<char>, Seq<char>)>) -> bool {
        exists|i: int| 0 <= i < req.len() && req[i].0 == "m.room.encryption"@
    }

    /// Interpret the absence of an `m.room.encryption` event. When the sync
    /// request asked for it and the room is not already known encrypted, its
    /// absence means the room is not encrypted; when it was not asked for,
    /// nothing can be concluded.
    pub fn handle_encryption_state(&mut self, requested: &Vec<(String, String)>)
        ensures
            final(self).deep_view() == (RoomInfoV {
                encryption: if Self::spec_requests_encryption(requested.deep_view())
                    && old(self).encryption != EncryptionState::Encrypted {
                    EncryptionState::NotEncrypted
                } else {
                    old(self).encryption
                },
                ..old(self).deep_view()
            }),
    {
        let n = requested.len();
        let mut asked = false;
        for i in 0..n
            invariant
                n == requested@.len(),
                asked == exists|j: int|
                    0 <= j < i && #[trigger] requested.deep_view()[j].0 == "m.room.encryption"@,
        {
            proof {
                assert(requested.deep_view()[i as int].0 == requested@[i as int].0@);
            }
            if str_is(&requested[i].0, "m.room.encryption") {
                asked = true;
            }
        }
        proof {
            assert(asked == Self::spec_requests_encryption(requested.deep_view()));
        }
        if asked && self.encryption != EncryptionState::Encrypted {
            self.encryption = EncryptionState::NotEncrypted;
        }
    }

    /// Redacting the current latest event clears it.
    pub fn handle_redaction(&mut self, redacts: &String)
        ensures
            final(self).deep_view() == (RoomInfoV {
                latest_event: match old(self).deep_view().latest_event {
                    Some(l) => if l.event_id == Some(redacts@) {
                        None
                    } else {
                        Some(l)
                    },
                    None => None,
                },
                ..old(self).deep_view()
            }),
    {
        let clear = match &self.latest_event {
            Some(l) => match &l.event_id {
                Some(id) => id.eq(redacts),
                None => false,
            },
            None => false,
        };
        if clear {
            self.latest_event = None;
        }
    }

    pub fn is_encrypted(&self) -> (r: bool)
        ensures
            r == (self.encryption == EncryptionState::Encrypted),
    {
        self.encryption == EncryptionState::Encrypted
    }
}

/// A room as the engine holds it: its summary plus the stored encrypted
/// candidates for the latest event.
#[derive(Clone, Debug)]
pub struct Room {
    pub info: RoomInfo,
    pub latest_encrypted_events: Vec<String>,
}

#[verifier::ext_equal]
pub struct RoomV {
    pub info: RoomInfoV,
    pub latest_encrypted_events: Seq<Seq<char>>,
}

impl DeepView for Room {
    type V = RoomV;

    open spec fn deep_view(&self) -> RoomV {
        RoomV {
            info: self.info.deep_view(),
            latest_encrypted_events: self.latest_encrypted_events.deep_view(),
        }
    }
}

impl DupView for Room {
    fn dup(&self) -> (r: Self) {
        Room {
            info: self.info.dup(),
            latest_encrypted_events: self.latest_encrypted_events.dup(),
        }
    }
}

/// Which lifecycle states a room query asks for.
#[derive(Clone, Copy, Debug, PartialEq, Eq, Structural)]
pub struct RoomStateFilter {
    pub joined: bool,
    pub left: bool,
    pub invited: bool,
    pub knocked: bool,
    pub banned: bool,
}

impl RoomStateFilter {
    pub open spec fn spec_matches(self, state: RoomState) -> bool {
        match state {
            RoomState::Joined => self.joined,
            RoomState::Left => self.left,
            RoomState::Invited => self.invited,
            RoomState::Knocked => self.knocked,
            RoomState::Banned => self.banned,
        }
    }

    #[verifier::when_used_as_spec(spec_matches)]
    pub fn matches(self, state: RoomState) -> (r: bool)
        ensures
            r == self.spec_matches(state),
    {
        match state {
            RoomState::Joined => self.joined,
            RoomState::Left => self.left,
            RoomState::Invited => self.invited,
            RoomState::Knocked => self.knocked,
            RoomState::Banned => self.banned,
        }
    }
}

/// The user and device a session belongs to.
#[derive(Clone, Debug)]
pub struct SessionMeta {
    pub user_id: String,
    pub device_id: String,
}

#[verifier::ext_equal]
pub struct SessionMetaV {
    pub user_id: Seq<char>,
    pub device_id: Seq<char>,
}

impl DeepView for SessionMeta {
    type V = SessionMetaV;

    open spec fn deep_view(&self) -> SessionMetaV {
        SessionMetaV { user_id: self.user_id@, device_id: self.device_id@ }
    }
}

impl DupView for SessionMeta {
    fn dup(&self) -> (r: Self) {
        SessionMeta { user_id: self.user_id.clone(), device_id: self.device_id.clone() }
    }
}

} // verus!
