//! The plain-data shape of a sync response as the engine takes it, and of
//! the summary it hands back.
//!
//! The host converts the wire form into `SyncInput`, performing the
//! cryptographic preprocessing the engine cannot: it hands over the
//! decrypted to-device events, the rooms whose keys changed, and an oracle
//! mapping each encrypted event's raw JSON to its decryption outcome. The
//! engine's answer carries, besides the per-room updates, the effects the
//! host must perform: broadcasts to deliver and crypto calls to make.

use vstd::prelude::*;

use crate::ambiguity::AmbiguityChange;
use crate::events::{
    AccountDataEvent, DecryptionOutcome, EphemeralEventInput, PresenceEventInput,
    RoomAccountDataEvent, StateEventInput, TimelineEventInput, TimelineEventKind,
    TimelineEventOrigin,
};
use crate::kmap::KMap;
use crate::push::PushActions;
use crate::room::{NotableReasons, NotificationCounts};

verus! {

/// The timeline slice of one room in a sync response.
pub struct TimelineInput {
    pub limited: bool,
    pub prev_batch: Option<String>,
    pub events: Vec<TimelineEventInput>,
}

/// One joined room in a sync response.
pub struct JoinedRoomInput {
    pub summary_joined_count: Option<u64>,
    pub summary_invited_count: Option<u64>,
    pub timeline: TimelineInput,
    pub state: Vec<StateEventInput>,
    pub ephemeral: Vec<EphemeralEventInput>,
    pub account_data: Vec<RoomAccountDataEvent>,
    pub notification_counts: NotificationCounts,
}

/// One left room in a sync response.
pub struct LeftRoomInput {
    pub timeline: TimelineInput,
    pub state: Vec<StateEventInput>,
    pub account_data: Vec<RoomAccountDataEvent>,
}

/// One invited or knocked room: its stripped state.
pub struct InvitedRoomInput {
    pub events: Vec<StateEventInput>,
}

/// What the host's cryptographic engine made of the sync's to-device part.
pub struct CryptoSyncOutcome {
    /// The decrypted to-device events, raw.
    pub decrypted_to_device: Vec<String>,
    /// The rooms whose keys were updated: their latest-event candidates are
    /// worth another decryption attempt.
    pub room_key_updates: Vec<String>,
}

/// A sync response, as plain data.
pub struct SyncInput {
    pub next_batch: String,
    pub join: Vec<(String, JoinedRoomInput)>,
    pub leave: Vec<(String, LeftRoomInput)>,
    pub invite: Vec<(String, InvitedRoomInput)>,
    pub knock: Vec<(String, InvitedRoomInput)>,
    pub account_data: Vec<AccountDataEvent>,
    pub presence: Vec<PresenceEventInput>,
    /// The to-device events as received, for the crypto-less path.
    pub to_device: Vec<String>,
    /// Present when a cryptographic engine is attached.
    pub crypto: Option<CryptoSyncOutcome>,
    /// Decryption outcomes, keyed by the encrypted event's raw JSON.
    pub decryptions: KMap<String, DecryptionOutcome>,
}

/// A timeline event as the engine hands it back: raw (possibly replaced by
/// its decrypted form), classified, with its push actions.
pub struct TimelineEventOut {
    pub raw: String,
    pub event_id: Option<String>,
    pub parsed: Option<TimelineEventKind>,
    pub origin: TimelineEventOrigin,
    pub push: Option<PushActions>,
}

/// The processed timeline of one room.
pub struct TimelineUpdate {
    pub limited: bool,
    pub prev_batch: Option<String>,
    pub events: Vec<TimelineEventOut>,
}

/// The update the engine reports for one joined room.
pub struct JoinedRoomUpdate {
    pub timeline: TimelineUpdate,
    pub state: Vec<StateEventInput>,
    pub account_data: Vec<RoomAccountDataEvent>,
    pub ephemeral: Vec<EphemeralEventInput>,
    pub notification_counts: NotificationCounts,
    pub ambiguity_changes: Vec<AmbiguityChange>,
}

/// The update the engine reports for one left room.
pub struct LeftRoomUpdate {
    pub timeline: TimelineUpdate,
    pub state: Vec<StateEventInput>,
    pub account_data: Vec<RoomAccountDataEvent>,
    pub ambiguity_changes: Vec<AmbiguityChange>,
}

/// An event whose push actions said to notify.
pub struct NotificationModel {
    pub actions: PushActions,
    pub raw_event: String,
}

/// A call the host must make on its cryptographic engine.
pub enum CryptoCommand {
    /// Track these users for device-list updates.
    UpdateTrackedUsers { users: Vec<String> },
    /// Hand this room's verification event to the verification machinery.
    ReceiveVerificationEvent { room_id: String, raw: String },
}

impl CryptoCommand {
    /// Whether this command tracks at least the given users.
    pub open spec fn spec_tracks_all(&self, users: Seq<Seq<char>>) -> bool {
        match self {
            CryptoCommand::UpdateTrackedUsers { users: listed } => forall|i: int|
                0 <= i < users.len() ==> exists|j: int|
                    0 <= j < listed@.len() && listed@[j]@ == #[trigger] users[i],
            _ => false,
        }
    }
}

/// The engine's answer to one sync response.
pub struct SyncOutput {
    pub rooms_join: Vec<(String, JoinedRoomUpdate)>,
    pub rooms_leave: Vec<(String, LeftRoomUpdate)>,
    pub rooms_invite: Vec<(String, InvitedRoomInput)>,
    pub rooms_knock: Vec<(String, InvitedRoomInput)>,
    pub presence: Vec<PresenceEventInput>,
    pub account_data: Vec<AccountDataEvent>,
    pub to_device: Vec<String>,
    pub notifications: Vec<(String, NotificationModel)>,
    /// One tick per committed room summary, with why it is notable.
    pub room_info_notable_updates: Vec<(String, NotableReasons)>,
    /// Per room, the members this sync updated, for the member-update
    /// broadcast.
    pub member_updates: Vec<(String, Vec<String>)>,
    /// The new ignored-user list, when observers must be told.
    pub ignored_user_list_publish: Option<Vec<String>>,
    /// The crypto calls the host must make, in order.
    pub crypto_commands: Vec<CryptoCommand>,
}

impl SyncOutput {
    /// The empty answer: what a replayed sync response gets.
    pub open spec fn spec_is_empty(&self) -> bool {
        &&& self.rooms_join@.len() == 0
        &&& self.rooms_leave@.len() == 0
        &&& self.rooms_invite@.len() == 0
        &&& self.rooms_knock@.len() == 0
        &&& self.presence@.len() == 0
        &&& self.account_data@.len() == 0
        &&& self.to_device@.len() == 0
        &&& self.notifications@.len() == 0
        &&& self.room_info_notable_updates@.len() == 0
        &&& self.member_updates@.len() == 0
        &&& self.ignored_user_list_publish is None
        &&& self.crypto_commands@.len() == 0
    }

    pub fn empty() -> (r: Self)
        ensures
            r.spec_is_empty(),
    {
        SyncOutput {
            rooms_join: Vec::new(),
            rooms_leave: Vec::new(),
            rooms_invite: Vec::new(),
            rooms_knock: Vec::new(),
            presence: Vec::new(),
            account_data: Vec::new(),
            to_device: Vec::new(),
            notifications: Vec::new(),
            room_info_notable_updates: Vec::new(),
            member_updates: Vec::new(),
            ignored_user_list_publish: None,
            crypto_commands: Vec::new(),
        }
    }
}

} // verus!
