//! Plain-data models of the events a sync response carries.
//!
//! The host deserializes the wire form; the engine works on these models and
//! keeps each event's raw JSON alongside, so that stored state and push-rule
//! evaluation stay byte-exact. An event that failed to deserialize arrives
//! with `parsed == None`: the engine logs nothing and skips it, the sync as a
//! whole proceeds.

use vstd::prelude::*;

use crate::util::DupView;

verus! {

/// Membership of a user in a room, from an `m.room.member` event.
#[derive(Clone, Copy, Debug, PartialEq, Eq, Structural)]
pub enum Membership {
    Join,
    Invite,
    Leave,
    Ban,
    Knock,
}

impl Membership {
    /// Joined and invited members are the room's active members.
    pub open spec fn spec_is_active(self) -> bool {
        self == Membership::Join || self == Membership::Invite
    }

    #[verifier::when_used_as_spec(spec_is_active)]
    pub fn is_active(self) -> (r: bool)
        ensures
            r == self.spec_is_active(),
    {
        match self {
            Membership::Join | Membership::Invite => true,
            _ => false,
        }
    }
}

/// Content of an `m.room.member` event.
#[derive(Clone, Debug)]
pub struct MemberContent {
    pub membership: Membership,
    pub displayname: Option<String>,
    pub avatar_url: Option<String>,
}

/// Content of an `m.room.power_levels` event, reduced to what push-rule
/// contexts and latest-event selection read.
#[derive(Clone, Debug)]
pub struct PowerLevelsContent {
    /// Per-user power levels.
    pub users: Vec<(String, i64)>,
    /// Power level of users absent from `users`.
    pub users_default: i64,
    /// Power level required to invite (and so to accept a knock).
    pub invite: i64,
    /// Power level required to trigger an `@room` notification.
    pub notifications_room: i64,
}

impl PowerLevelsContent {
    /// The effective power level named by the first entry for `user`, or the
    /// default when there is none.
    pub open spec fn spec_level_in(users: Seq<(String, i64)>, user: Seq<char>, dflt: i64) -> i64
        decreases users.len(),
    {
        if users.len() == 0 {
            dflt
        } else if users[0].0@ == user {
            users[0].1
        } else {
            Self::spec_level_in(users.skip(1), user, dflt)
        }
    }

    /// The effective power level of `user`.
    pub open spec fn spec_user_level(&self, user: Seq<char>) -> i64 {
        Self::spec_level_in(self.users@, user, self.users_default)
    }

    /// Whether `user` may invite, and so accept a knock.
    pub open spec fn spec_can_invite(&self, user: Seq<char>) -> bool {
        self.spec_user_level(user) >= self.invite
    }

    pub fn user_level(&self, user: &String) -> (r: i64)
        ensures
            r == self.spec_user_level(user@),
    {
        let n = self.users.len();
        proof {
            assert(self.users@.skip(0) =~= self.users@);
        }
        for i in 0..n
            invariant
                n == self.users@.len(),
                Self::spec_level_in(self.users@.skip(i as int), user@, self.users_default)
                    == self.spec_user_level(user@),
                forall|j: int| 0 <= j < i ==> self.users@[j].0@ != user@,
        {
            proof {
                assert(self.users@.skip(i as int)[0] == self.users@[i as int]);
            }
            if self.users[i].0.eq(user) {
                return self.users[i].1;
            }
            proof {
                assert(self.users@.skip(i as int).skip(1) =~= self.users@.skip(i as int + 1));
            }
        }
        self.users_default
    }

    pub fn can_invite(&self, user: &String) -> (r: bool)
        ensures
            r == self.spec_can_invite(user@),
    {
        self.user_level(user) >= self.invite
    }
}

/// History visibility of a room.
#[derive(Clone, Copy, Debug, PartialEq, Eq, Structural)]
pub enum HistoryVisibility {
    Invited,
    Joined,
    Shared,
    WorldReadable,
}

/// Content of an `m.room.encryption` event.
#[derive(Clone, Debug)]
pub struct EncryptionContent {
    pub algorithm: String,
    pub rotation_period_ms: Option<u64>,
    pub rotation_period_msgs: Option<u64>,
}

/// The content of a state event, reduced to what the engine reads.
#[derive(Clone, Debug)]
pub enum StateContent {
    Member(MemberContent),
    PowerLevels(PowerLevelsContent),
    Encryption(EncryptionContent),
    HistoryVisibility(HistoryVisibility),
    Create { room_version: String },
    Name { name: String },
    CanonicalAlias { alias: Option<String> },
    Other,
}

/// A deserialized state event (sync or stripped form).
#[derive(Clone, Debug)]
pub struct StateEventModel {
    pub event_type: String,
    pub state_key: String,
    pub sender: String,
    pub content: StateContent,
}

/// A raw state event with its deserialized form, when deserialization
/// succeeded.
#[derive(Clone, Debug)]
pub struct StateEventInput {
    pub raw: String,
    pub parsed: Option<StateEventModel>,
}

/// A deserialized timeline event, classified by what the engine does to it.
#[derive(Clone, Debug)]
pub enum TimelineEventKind {
    State(StateEventModel),
    /// An `m.room.redaction`. `redacts` is the top-level field, used by room
    /// versions before the eleventh; `content_redacts` the in-content field
    /// used from it on.
    Redaction { sender: String, redacts: Option<String>, content_redacts: Option<String> },
    /// An original (not redacted) `m.room.encrypted` event.
    Encrypted { sender: String },
    /// An `m.room.message` with its message type.
    Message { sender: String, msgtype: String },
    /// Any other message-like event.
    Other { event_type: String, sender: String },
}

/// A raw timeline event with its deserialized form, when deserialization
/// succeeded.
#[derive(Clone, Debug)]
pub struct TimelineEventInput {
    pub raw: String,
    pub event_id: Option<String>,
    pub parsed: Option<TimelineEventKind>,
}

/// What the host's cryptographic engine made of one encrypted event.
#[derive(Clone, Debug)]
pub enum DecryptionOutcome {
    /// The decrypted event: its raw JSON and its deserialized form.
    Decrypted { raw: String, event_id: Option<String>, parsed: Option<TimelineEventKind> },
    /// No key: the event stays raw, with diagnostic information.
    UnableToDecrypt { info: String },
}

/// The provenance of a timeline event the engine hands back.
#[derive(Clone, Debug, PartialEq, Eq, Structural)]
pub enum TimelineEventOrigin {
    PlainText,
    Decrypted,
    UnableToDecrypt,
}

/// A global account-data event's content, reduced to what the engine reads.
#[derive(Clone, Debug)]
pub enum AccountDataContent {
    /// `m.push_rules`: the ruleset itself is read from `raw` when needed.
    PushRules,
    /// `m.ignored_user_list`: the ignored users, in event order.
    IgnoredUserList { ignored_users: Vec<String> },
    /// `m.direct`.
    Direct,
    Other,
}

/// A raw global account-data event with its deserialized form.
#[derive(Clone, Debug)]
pub struct AccountDataEvent {
    pub event_type: String,
    pub raw: String,
    pub parsed: Option<AccountDataContent>,
}

/// A room account-data event's content, reduced to what the engine reads.
#[derive(Clone, Copy, Debug)]
pub enum RoomAccountDataContent {
    MarkedUnread { unread: bool },
    UnstableMarkedUnread { unread: bool },
    Tag { favourite: bool, low_priority: bool },
    Other,
}

/// A raw room account-data event with its deserialized form.
#[derive(Clone, Debug)]
pub struct RoomAccountDataEvent {
    pub event_type: String,
    pub raw: String,
    pub parsed: Option<RoomAccountDataContent>,
}

/// An ephemeral room event; the engine retains only receipts.
#[derive(Clone, Debug)]
pub struct EphemeralEventInput {
    pub raw: String,
    pub parsed: Option<EphemeralKind>,
}

#[derive(Clone, Copy, Debug, PartialEq, Eq, Structural)]
pub enum EphemeralKind {
    Receipt,
    Typing,
    Other,
}

/// A presence event with its sender, when deserialization succeeded.
#[derive(Clone, Debug)]
pub struct PresenceEventInput {
    pub raw: String,
    pub sender: Option<String>,
}

/// A full (non-sync) member event from a members response.
#[derive(Clone, Debug)]
pub struct MemberEventInput {
    pub raw: String,
    pub parsed: Option<FullMemberEvent>,
}

/// The deserialized form of a full member event.
#[derive(Clone, Debug)]
pub struct FullMemberEvent {
    pub state_key: String,
    pub sender: String,
    pub content: MemberContent,
    /// False for a redacted member event, whose content is stripped.
    pub is_original: bool,
}

// ---------------------------------------------------------------------------
// Deep views: the mathematical shadow of each model type. Contracts speak of
// these, so that copies of a value are interchangeable with the value.
// ---------------------------------------------------------------------------

impl DeepView for Membership {
    type V = Membership;

    open spec fn deep_view(&self) -> Membership {
        *self
    }
}

impl DeepView for HistoryVisibility {
    type V = HistoryVisibility;

    open spec fn deep_view(&self) -> HistoryVisibility {
        *self
    }
}

impl DeepView for EphemeralKind {
    type V = EphemeralKind;

    open spec fn deep_view(&self) -> EphemeralKind {
        *self
    }
}

impl DeepView for TimelineEventOrigin {
    type V = TimelineEventOrigin;

    open spec fn deep_view(&self) -> TimelineEventOrigin {
        *self
    }
}

impl DeepView for RoomAccountDataContent {
    type V = RoomAccountDataContent;

    open spec fn deep_view(&self) -> RoomAccountDataContent {
        *self
    }
}

#[verifier::ext_equal]
pub struct MemberContentV {
    pub membership: Membership,
    pub displayname: Option<Seq<char>>,
    pub avatar_url: Option<Seq<char>>,
}

impl DeepView for MemberContent {
    type V = MemberContentV;

    open spec fn deep_view(&self) -> MemberContentV {
        MemberContentV {
            membership: self.membership,
            displayname: self.displayname.deep_view(),
            avatar_url: self.avatar_url.deep_view(),
        }
    }
}

impl DupView for MemberContent {
    fn dup(&self) -> (r: Self) {
        MemberContent {
            membership: self.membership,
            displayname: self.displayname.dup(),
            avatar_url: self.avatar_url.dup(),
        }
    }
}

#[verifier::ext_equal]
pub struct PowerLevelsV {
    pub users: Seq<(Seq<char>, i64)>,
    pub users_default: i64,
    pub invite: i64,
    pub notifications_room: i64,
}

impl DeepView for PowerLevelsContent {
    type V = PowerLevelsV;

    open spec fn deep_view(&self) -> PowerLevelsV {
        PowerLevelsV {
            users: self.users.deep_view(),
            users_default: self.users_default,
            invite: self.invite,
            notifications_room: self.notifications_room,
        }
    }
}

impl DupView for PowerLevelsContent {
    fn dup(&self) -> (r: Self) {
        PowerLevelsContent {
            users: self.users.dup(),
            users_default: self.users_default,
            invite: self.invite,
            notifications_room: self.notifications_room,
        }
    }
}

#[verifier::ext_equal]
pub struct EncryptionContentV {
    pub algorithm: Seq<char>,
    pub rotation_period_ms: Option<u64>,
    pub rotation_period_msgs: Option<u64>,
}

impl DeepView for EncryptionContent {
    type V = EncryptionContentV;

    open spec fn deep_view(&self) -> EncryptionContentV {
        EncryptionContentV {
            algorithm: self.algorithm@,
            rotation_period_ms: self.rotation_period_ms,
            rotation_period_msgs: self.rotation_period_msgs,
        }
    }
}

impl DupView for EncryptionContent {
    fn dup(&self) -> (r: Self) {
        EncryptionContent {
            algorithm: self.algorithm.clone(),
            rotation_period_ms: self.rotation_period_ms,
            rotation_period_msgs: self.rotation_period_msgs,
        }
    }
}

#[verifier::ext_equal]
pub enum StateContentV {
    Member(MemberContentV),
    PowerLevels(PowerLevelsV),
    Encryption(EncryptionContentV),
    HistoryVisibility(HistoryVisibility),
    Create { room_version: Seq<char> },
    Name { name: Seq<char> },
    CanonicalAlias { alias: Option<Seq<char>> },
    Other,
}

impl DeepView for StateContent {
    type V = StateContentV;

    open spec fn deep_view(&self) -> StateContentV {
        match self {
            StateContent::Member(m) => StateContentV::Member(m.deep_view()),
            StateContent::PowerLevels(p) => StateContentV::PowerLevels(p.deep_view()),
            StateContent::Encryption(e) => StateContentV::Encryption(e.deep_view()),
            StateContent::HistoryVisibility(v) => StateContentV::HistoryVisibility(*v),
            StateContent::Create { room_version } => StateContentV::Create {
                room_version: room_version@,
            },
            StateContent::Name { name } => StateContentV::Name { name: name@ },
            StateContent::CanonicalAlias { alias } => StateContentV::CanonicalAlias {
                alias: alias.deep_view(),
            },
            StateContent::Other => StateContentV::Other,
        }
    }
}

impl DupView for StateContent {
    fn dup(&self) -> (r: Self) {
        match self {
            StateContent::Member(m) => StateContent::Member(m.dup()),
            StateContent::PowerLevels(p) => StateContent::PowerLevels(p.dup()),
            StateContent::Encryption(e) => StateContent::Encryption(e.dup()),
            StateContent::HistoryVisibility(v) => StateContent::HistoryVisibility(*v),
            StateContent::Create { room_version } => StateContent::Create {
                room_version: room_version.clone(),
            },
            StateContent::Name { name } => StateContent::Name { name: name.clone() },
            StateContent::CanonicalAlias { alias } => StateContent::CanonicalAlias {
                alias: alias.dup(),
            },
            StateContent::Other => StateContent::Other,
        }
    }
}

#[verifier::ext_equal]
pub struct StateEventModelV {
    pub event_type: Seq<char>,
    pub state_key: Seq<char>,
    pub sender: Seq<char>,
    pub content: StateContentV,
}

impl DeepView for StateEventModel {
    type V = StateEventModelV;

    open spec fn deep_view(&self) -> StateEventModelV {
        StateEventModelV {
            event_type: self.event_type@,
            state_key: self.state_key@,
            sender: self.sender@,
            content: self.content.deep_view(),
        }
    }
}

impl DupView for StateEventModel {
    fn dup(&self) -> (r: Self) {
        StateEventModel {
            event_type: self.event_type.clone(),
            state_key: self.state_key.clone(),
            sender: self.sender.clone(),
            content: self.content.dup(),
        }
    }
}

#[verifier::ext_equal]
pub struct StateEventInputV {
    pub raw: Seq<char>,
    pub parsed: Option<StateEventModelV>,
}

impl DeepView for StateEventInput {
    type V = StateEventInputV;

    open spec fn deep_view(&self) -> StateEventInputV {
        StateEventInputV { raw: self.raw@, parsed: self.parsed.deep_view() }
    }
}

impl DupView for StateEventInput {
    fn dup(&self) -> (r: Self) {
        StateEventInput { raw: self.raw.clone(), parsed: self.parsed.dup() }
    }
}

#[verifier::ext_equal]
pub enum TimelineEventKindV {
    State(StateEventModelV),
    Redaction {
        sender: Seq<char>,
        redacts: Option<Seq<char>>,
        content_redacts: Option<Seq<char>>,
    },
    Encrypted { sender: Seq<char> },
    Message { sender: Seq<char>, msgtype: Seq<char> },
    Other { event_type: Seq<char>, sender: Seq<char> },
}

impl DeepView for TimelineEventKind {
    type V = TimelineEventKindV;

    open spec fn deep_view(&self) -> TimelineEventKindV {
        match self {
            TimelineEventKind::State(e) => TimelineEventKindV::State(e.deep_view()),
            TimelineEventKind::Redaction { sender, redacts, content_redacts } => {
                TimelineEventKindV::Redaction {
                    sender: sender@,
                    redacts: redacts.deep_view(),
                    content_redacts: content_redacts.deep_view(),
                }
            },
            TimelineEventKind::Encrypted { sender } => TimelineEventKindV::Encrypted {
                sender: sender@,
            },
            TimelineEventKind::Message { sender, msgtype } => TimelineEventKindV::Message {
                sender: sender@,
                msgtype: msgtype@,
            },
            TimelineEventKind::Other { event_type, sender } => TimelineEventKindV::Other {
                event_type: event_type@,
                sender: sender@,
            },
        }
    }
}

impl DupView for TimelineEventKind {
    fn dup(&self) -> (r: Self) {
        match self {
            TimelineEventKind::State(e) => TimelineEventKind::State(e.dup()),
            TimelineEventKind::Redaction { sender, redacts, content_redacts } => {
                TimelineEventKind::Redaction {
                    sender: sender.clone(),
                    redacts: redacts.dup(),
                    content_redacts: content_redacts.dup(),
                }
            },
            TimelineEventKind::Encrypted { sender } => TimelineEventKind::Encrypted {
                sender: sender.clone(),
            },
            TimelineEventKind::Message { sender, msgtype } => TimelineEventKind::Message {
                sender: sender.clone(),
                msgtype: msgtype.clone(),
            },
            TimelineEventKind::Other { event_type, sender } => TimelineEventKind::Other {
                event_type: event_type.clone(),
                sender: sender.clone(),
            },
        }
    }
}

#[verifier::ext_equal]
pub struct TimelineEventInputV {
    pub raw: Seq<char>,
    pub event_id: Option<Seq<char>>,
    pub parsed: Option<TimelineEventKindV>,
}

impl DeepView for TimelineEventInput {
    type V = TimelineEventInputV;

    open spec fn deep_view(&self) -> TimelineEventInputV {
        TimelineEventInputV {
            raw: self.raw@,
            event_id: self.event_id.deep_view(),
            parsed: self.parsed.deep_view(),
        }
    }
}

impl DupView for TimelineEventInput {
    fn dup(&self) -> (r: Self) {
        TimelineEventInput {
            raw: self.raw.clone(),
            event_id: self.event_id.dup(),
            parsed: self.parsed.dup(),
        }
    }
}

#[verifier::ext_equal]
pub enum DecryptionOutcomeV {
    Decrypted { raw: Seq<char>, event_id: Option<Seq<char>>, parsed: Option<TimelineEventKindV> },
    UnableToDecrypt { info: Seq<char> },
}

impl DeepView for DecryptionOutcome {
    type V = DecryptionOutcomeV;

    open spec fn deep_view(&self) -> DecryptionOutcomeV {
        match self {
            DecryptionOutcome::Decrypted { raw, event_id, parsed } => {
                DecryptionOutcomeV::Decrypted {
                    raw: raw@,
                    event_id: event_id.deep_view(),
                    parsed: parsed.deep_view(),
                }
            },
            DecryptionOutcome::UnableToDecrypt { info } => DecryptionOutcomeV::UnableToDecrypt {
                info: info@,
            },
        }
    }
}

impl DupView for DecryptionOutcome {
    fn dup(&self) -> (r: Self) {
        match self {
            DecryptionOutcome::Decrypted { raw, event_id, parsed } => {
                DecryptionOutcome::Decrypted {
                    raw: raw.clone(),
                    event_id: event_id.dup(),
                    parsed: parsed.dup(),
                }
            },
            DecryptionOutcome::UnableToDecrypt { info } => DecryptionOutcome::UnableToDecrypt {
                info: info.clone(),
            },
        }
    }
}

#[verifier::ext_equal]
pub enum AccountDataContentV {
    PushRules,
    IgnoredUserList { ignored_users: Seq<Seq<char>> },
    Direct,
    Other,
}

impl DeepView for AccountDataContent {
    type V = AccountDataContentV;

    open spec fn deep_view(&self) -> AccountDataContentV {
        match self {
            AccountDataContent::PushRules => AccountDataContentV::PushRules,
            AccountDataContent::IgnoredUserList { ignored_users } => {
                AccountDataContentV::IgnoredUserList { ignored_users: ignored_users.deep_view() }
            },
            AccountDataContent::Direct => AccountDataContentV::Direct,
            AccountDataContent::Other => AccountDataContentV::Other,
        }
    }
}

impl DupView for AccountDataContent {
    fn dup(&self) -> (r: Self) {
        match self {
            AccountDataContent::PushRules => AccountDataContent::PushRules,
            AccountDataContent::IgnoredUserList { ignored_users } => {
                AccountDataContent::IgnoredUserList { ignored_users: ignored_users.dup() }
            },
            AccountDataContent::Direct => AccountDataContent::Direct,
            AccountDataContent::Other => AccountDataContent::Other,
        }
    }
}

#[verifier::ext_equal]
pub struct AccountDataEventV {
    pub event_type: Seq<char>,
    pub raw: Seq<char>,
    pub parsed: Option<AccountDataContentV>,
}

impl DeepView for AccountDataEvent {
    type V = AccountDataEventV;

    open spec fn deep_view(&self) -> AccountDataEventV {
        AccountDataEventV {
            event_type: self.event_type@,
            raw: self.raw@,
            parsed: self.parsed.deep_view(),
        }
    }
}

impl DupView for AccountDataEvent {
    fn dup(&self) -> (r: Self) {
        AccountDataEvent {
            event_type: self.event_type.clone(),
            raw: self.raw.clone(),
            parsed: self.parsed.dup(),
        }
    }
}

#[verifier::ext_equal]
pub struct RoomAccountDataEventV {
    pub event_type: Seq<char>,
    pub raw: Seq<char>,
    pub parsed: Option<RoomAccountDataContent>,
}

impl DeepView for RoomAccountDataEvent {
    type V = RoomAccountDataEventV;

    open spec fn deep_view(&self) -> RoomAccountDataEventV {
        RoomAccountDataEventV {
            event_type: self.event_type@,
            raw: self.raw@,
            parsed: self.parsed,
        }
    }
}

impl DupView for RoomAccountDataEvent {
    fn dup(&self) -> (r: Self) {
        RoomAccountDataEvent {
            event_type: self.event_type.clone(),
            raw: self.raw.clone(),
            parsed: self.parsed,
        }
    }
}

#[verifier::ext_equal]
pub struct FullMemberEventV {
    pub state_key: Seq<char>,
    pub sender: Seq<char>,
    pub content: MemberContentV,
    pub is_original: bool,
}

impl DeepView for FullMemberEvent {
    type V = FullMemberEventV;

    open spec fn deep_view(&self) -> FullMemberEventV {
        FullMemberEventV {
            state_key: self.state_key@,
            sender: self.sender@,
            content: self.content.deep_view(),
            is_original: self.is_original,
        }
    }
}

#[verifier::ext_equal]
pub struct EphemeralEventInputV {
    pub raw: Seq<char>,
    pub parsed: Option<EphemeralKind>,
}

impl DeepView for EphemeralEventInput {
    type V = EphemeralEventInputV;

    open spec fn deep_view(&self) -> EphemeralEventInputV {
        EphemeralEventInputV { raw: self.raw@, parsed: self.parsed }
    }
}

impl DupView for EphemeralEventInput {
    fn dup(&self) -> (r: Self) {
        EphemeralEventInput { raw: self.raw.clone(), parsed: self.parsed }
    }
}

#[verifier::ext_equal]
pub struct PresenceEventInputV {
    pub raw: Seq<char>,
    pub sender: Option<Seq<char>>,
}

impl DeepView for PresenceEventInput {
    type V = PresenceEventInputV;

    open spec fn deep_view(&self) -> PresenceEventInputV {
        PresenceEventInputV { raw: self.raw@, sender: self.sender.deep_view() }
    }
}

impl DupView for PresenceEventInput {
    fn dup(&self) -> (r: Self) {
        PresenceEventInput { raw: self.raw.clone(), sender: self.sender.dup() }
    }
}

} // verus!
