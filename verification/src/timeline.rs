//! Timeline processing: decryption outcomes, state folds, redactions,
//! verification dispatch and push evaluation, one event at a time, in order.

use vstd::prelude::*;

use crate::ambiguity::{AmbiguityCache, MemberSnapshot};
use crate::changes::{StateChanges, StateChangesV};
use crate::events::{
    DecryptionOutcome, DecryptionOutcomeV, PowerLevelsContent, StateContent, StateContentV,
    StateEventInput, StateEventModel, TimelineEventInput, TimelineEventKind, TimelineEventKindV,
    TimelineEventOrigin,
};
use crate::kmap::{KMap, StrSet};
use crate::push::{build_room_ctx_for, evaluate_push, PushActions, PushContextModel};
use crate::response::{CryptoCommand, NotificationModel, TimelineEventOut};
use crate::room::{RoomInfo, RoomInfoV};
use crate::store::StateStore;
use crate::util::{localpart, spec_localpart, str_has_prefix, str_is, DupView};

verus! {

/// Record a self-declared profile and schedule stale ones for deletion.
///
/// Senders can fake another member's profile, so only a profile the member
/// set for themselves is kept; and an invite schedules the removal of any
/// stored profile, so that a synthetic empty profile left by an earlier
/// leave cannot shadow the fresh one.
pub fn handle_room_member_event_for_profiles(
    room_id: &String,
    event: &StateEventModel,
    changes: &mut StateChanges,
)
    requires
        old(changes).wf(),
        event.content is Member,
    ensures
        final(changes).wf(),
        final(changes)@ == (StateChangesV {
            profiles: if event.sender@ == event.state_key@ {
                old(changes)@.profiles.insert(
                    (room_id@, event.state_key@),
                    spec_member_content_of(event.deep_view().content),
                )
            } else {
                old(changes)@.profiles
            },
            profiles_to_delete: if spec_member_content_is_invite(event.deep_view().content) {
                old(changes)@.profiles_to_delete.push((room_id@, event.state_key@))
            } else {
                old(changes)@.profiles_to_delete
            },
            ..old(changes)@
        }),
{
    let content = match &event.content {
        StateContent::Member(mc) => mc,
        _ => unreached(),
    };
    if event.sender.eq(&event.state_key) {
        changes.add_profile(room_id, &event.state_key, content.dup());
    }
    if content.membership == crate::events::Membership::Invite {
        changes.add_profile_to_delete(room_id, &event.state_key);
    }
}

/// The member content of a state-content view known to be a member event.
pub open spec fn spec_member_content_of(c: StateContentV) -> crate::events::MemberContentV {
    match c {
        StateContentV::Member(mc) => mc,
        _ => arbitrary(),
    }
}

pub open spec fn spec_member_content_is_invite(c: StateContentV) -> bool {
    match c {
        StateContentV::Member(mc) => mc.membership == crate::events::Membership::Invite,
        _ => false,
    }
}

/// Whether an event carries a verification message: a room message asking
/// for verification, or any event of the verification family.
pub open spec fn spec_is_verification(parsed: Option<TimelineEventKindV>) -> bool {
    match parsed {
        Some(TimelineEventKindV::Message { msgtype, .. }) => msgtype
            == "m.key.verification.request"@,
        Some(TimelineEventKindV::Other { event_type, .. }) => "m.key.verification"@.is_prefix_of(
            event_type,
        ),
        _ => false,
    }
}

fn is_verification(parsed: &Option<TimelineEventKind>) -> (r: bool)
    ensures
        r == spec_is_verification(parsed.deep_view()),
{
    match parsed {
        Some(TimelineEventKind::Message { msgtype, .. }) => str_is(
            msgtype,
            "m.key.verification.request",
        ),
        Some(TimelineEventKind::Other { event_type, .. }) => str_has_prefix(
            event_type,
            "m.key.verification",
        ),
        _ => false,
    }
}

/// Whether an undecryptable or undecrypted encrypted event is at hand.
pub open spec fn spec_is_encrypted(parsed: Option<TimelineEventKindV>) -> bool {
    parsed matches Some(TimelineEventKindV::Encrypted { .. })
}

/// The raw JSON the engine hands back for an event: the decrypted form when
/// the oracle has one, the received form otherwise.
pub open spec fn spec_out_raw(
    ev: crate::events::TimelineEventInputV,
    crypto_enabled: bool,
    dec: Map<Seq<char>, DecryptionOutcomeV>,
) -> Seq<char> {
    if spec_is_encrypted(ev.parsed) && crypto_enabled && dec.contains_key(ev.raw) {
        match dec[ev.raw] {
            DecryptionOutcomeV::Decrypted { raw, .. } => raw,
            DecryptionOutcomeV::UnableToDecrypt { .. } => ev.raw,
        }
    } else {
        ev.raw
    }
}

/// The provenance of the event the engine hands back.
pub open spec fn spec_out_origin(
    ev: crate::events::TimelineEventInputV,
    crypto_enabled: bool,
    dec: Map<Seq<char>, DecryptionOutcomeV>,
) -> TimelineEventOrigin {
    if spec_is_encrypted(ev.parsed) && crypto_enabled && dec.contains_key(ev.raw) {
        match dec[ev.raw] {
            DecryptionOutcomeV::Decrypted { .. } => TimelineEventOrigin::Decrypted,
            DecryptionOutcomeV::UnableToDecrypt { .. } => TimelineEventOrigin::UnableToDecrypt,
        }
    } else {
        TimelineEventOrigin::PlainText
    }
}

/// The classified form of the event the engine hands back.
pub open spec fn spec_out_parsed(
    ev: crate::events::TimelineEventInputV,
    crypto_enabled: bool,
    dec: Map<Seq<char>, DecryptionOutcomeV>,
) -> Option<TimelineEventKindV> {
    if spec_is_encrypted(ev.parsed) && crypto_enabled && dec.contains_key(ev.raw) {
        match dec[ev.raw] {
            DecryptionOutcomeV::Decrypted { parsed, .. } => parsed,
            DecryptionOutcomeV::UnableToDecrypt { .. } => ev.parsed,
        }
    } else {
        ev.parsed
    }
}

/// How one event changes the set of updated members.
pub open spec fn spec_user_ids_step(
    s: Set<Seq<char>>,
    parsed: Option<TimelineEventKindV>,
    ignore_state_events: bool,
) -> Set<Seq<char>> {
    match parsed {
        Some(TimelineEventKindV::State(e)) => if !ignore_state_events {
            match e.content {
                StateContentV::Member(mc) => if mc.membership.spec_is_active() {
                    s.insert(e.state_key)
                } else {
                    s.remove(e.state_key)
                },
                _ => s,
            }
        } else {
            s
        },
        _ => s,
    }
}

/// The member set after folding a prefix of timeline events.
pub open spec fn spec_folded_user_ids(
    s: Set<Seq<char>>,
    events: Seq<TimelineEventInput>,
    n: int,
    ignore_state_events: bool,
) -> Set<Seq<char>>
    decreases n,
{
    if n <= 0 {
        s
    } else {
        spec_user_ids_step(
            spec_folded_user_ids(s, events, n - 1, ignore_state_events),
            events[n - 1].deep_view().parsed,
            ignore_state_events,
        )
    }
}

/// The recorded state events after folding a prefix of timeline events:
/// every parsed state event lands under (room, type, state key).
pub open spec fn spec_folded_timeline_state(
    m: Map<(Seq<char>, Seq<char>, Seq<char>), crate::events::StateEventInputV>,
    room: Seq<char>,
    events: Seq<TimelineEventInput>,
    n: int,
    ignore_state_events: bool,
) -> Map<(Seq<char>, Seq<char>, Seq<char>), crate::events::StateEventInputV>
    decreases n,
{
    if n <= 0 {
        m
    } else {
        let prev = spec_folded_timeline_state(m, room, events, n - 1, ignore_state_events);
        match events[n - 1].deep_view().parsed {
            Some(TimelineEventKindV::State(e)) => if !ignore_state_events {
                prev.insert(
                    (room, e.event_type, e.state_key),
                    crate::events::StateEventInputV { raw: events[n - 1].raw@, parsed: Some(e) },
                )
            } else {
                prev
            },
            _ => prev,
        }
    }
}

/// Whether a command dispatches this raw event of this room for
/// verification.
pub open spec fn spec_is_verification_command(
    c: CryptoCommand,
    room: Seq<char>,
    raw: Seq<char>,
) -> bool {
    match c {
        CryptoCommand::ReceiveVerificationEvent { room_id, raw: r } => room_id@ == room && r@
            == raw,
        _ => false,
    }
}

/// The redaction target, resolved by room version: the in-content field
/// for the room versions the engine knows to use it (the eleventh and
/// twelfth), the top-level field for every other version string, the first
/// version included.
pub open spec fn spec_redaction_target(
    redacts: Option<Seq<char>>,
    content_redacts: Option<Seq<char>>,
    room_version: Option<Seq<char>>,
) -> Option<Seq<char>> {
    let modern = match room_version {
        Some(v) => v == "11"@ || v == "12"@,
        None => false,
    };
    if modern {
        content_redacts
    } else {
        redacts
    }
}

fn redaction_target(
    redacts: &Option<String>,
    content_redacts: &Option<String>,
    room_version: &Option<String>,
) -> (r: Option<String>)
    ensures
        crate::util::opt_str_view(r) == spec_redaction_target(
            crate::util::opt_str_view(*redacts),
            crate::util::opt_str_view(*content_redacts),
            crate::util::opt_str_view(*room_version),
        ),
{
    let modern = match room_version {
        Some(v) => str_is(v, "11") || str_is(v, "12"),
        None => false,
    };
    if modern {
        content_redacts.dup()
    } else {
        redacts.dup()
    }
}

/// How one event changes a room's stored encrypted candidates: an
/// encrypted event that could not be decrypted joins them, the oldest
/// falling out beyond ten.
pub open spec fn spec_latest_enc_step(
    list: Seq<Seq<char>>,
    ev: crate::events::TimelineEventInputV,
    crypto_enabled: bool,
    dec: Map<Seq<char>, DecryptionOutcomeV>,
) -> Seq<Seq<char>> {
    if spec_is_encrypted(ev.parsed) && crypto_enabled && spec_out_origin(ev, crypto_enabled, dec)
        != TimelineEventOrigin::Decrypted {
        if list.len() >= 10 {
            list.skip(1).push(ev.raw)
        } else {
            list.push(ev.raw)
        }
    } else {
        list
    }
}

/// Process the timeline of one room: classify and possibly replace each
/// event, fold state events into the room summary and the change set, track
/// member updates, dispatch verification events, and evaluate push rules.
///
/// The events come back in order, byte-exact except where decryption
/// replaced an encrypted event's raw form.
#[verifier::rlimit(100)]
pub fn handle_timeline(
    store: &StateStore,
    room_id: &String,
    own_user: &String,
    events: &Vec<TimelineEventInput>,
    ignore_state_events: bool,
    ruleset: &ruma_common::push::Ruleset,
    crypto_enabled: bool,
    handle_verification_events: bool,
    decryptions: &KMap<String, DecryptionOutcome>,
    user_ids: &mut StrSet,
    room_info: &mut RoomInfo,
    latest_encrypted_events: &mut Vec<String>,
    changes: &mut StateChanges,
    notifications: &mut Vec<(String, NotificationModel)>,
    crypto_commands: &mut Vec<CryptoCommand>,
    ambiguity: &mut AmbiguityCache,
) -> (r: Vec<TimelineEventOut>)
    requires
        old(user_ids).wf(),
        old(changes).wf(),
        old(ambiguity).wf(),
        store.wf(),
        decryptions.wf(),
    ensures
        final(user_ids).wf(),
        final(changes).wf(),
        final(ambiguity).wf(),
        final(ambiguity).seeded == old(ambiguity).seeded,
        // every event comes back, in order, with the decryption outcome the
        // oracle dictates
        r@.len() == events@.len(),
        forall|i: int|
            #![trigger r@[i]]
            0 <= i < r@.len() ==> {
                let ev = events@[i].deep_view();
                &&& r@[i].raw@ == spec_out_raw(ev, crypto_enabled, decryptions@)
                &&& r@[i].origin == spec_out_origin(ev, crypto_enabled, decryptions@)
                &&& r@[i].parsed.deep_view() == spec_out_parsed(ev, crypto_enabled, decryptions@)
            },
        // the room summary's lifecycle and sync-status fields are timeline-proof
        final(room_info).room_id@ == old(room_info).room_id@,
        final(room_info).state == old(room_info).state,
        final(room_info).members_sync_status == old(room_info).members_sync_status,
        final(room_info).state_sync_status == old(room_info).state_sync_status,
        // a member profile appears or changes only as a member's own event
        // in this batch states it
        forall|u: Seq<char>|
            #![trigger final(changes)@.profiles.contains_key((room_id@, u))]
            final(changes)@.profiles.contains_key((room_id@, u)) && (!old(changes)@.profiles.contains_key((room_id@, u)) || final(changes)@.profiles[(room_id@, u)]
                != old(changes)@.profiles[(room_id@, u)]) ==> exists|i: int|
                0 <= i < events@.len() && #[trigger] spec_event_self_profile(
                    events@[i].deep_view().parsed,
                    u,
                ),
        // every invite of the batch scheduled the deletion of the invited
        // member's stored profile
        forall|i: int|
            #![auto]
            0 <= i < events@.len() && !ignore_state_events && spec_event_invites(
                events@[i].deep_view().parsed,
            ) ==> crate::store::spec_pair_listed(
                final(changes)@.profiles_to_delete,
                (room_id@, spec_event_state_key(events@[i].deep_view().parsed)),
            ),
        // the member set follows the member events, insertions for active
        // memberships and removals for the rest
        final(user_ids)@ == spec_folded_user_ids(
            old(user_ids)@,
            events@,
            events@.len() as int,
            ignore_state_events,
        ),
        // every parsed state event is recorded under (room, type, state key)
        final(changes)@.state == spec_folded_timeline_state(
            old(changes)@.state,
            room_id@,
            events@,
            events@.len() as int,
            ignore_state_events,
        ),
        // redactions change only under this room's keys
        final(changes)@.redactions.remove_keys(
            Set::new(|k: (Seq<char>, Seq<char>)| k.0 == room_id@),
        ) == old(changes)@.redactions.remove_keys(
            Set::new(|k: (Seq<char>, Seq<char>)| k.0 == room_id@),
        ),
        // untouched tables of the change set stay untouched
        final(changes)@.account_data == old(changes)@.account_data,
        final(changes)@.stripped_state == old(changes)@.stripped_state,
        final(changes)@.room_account_data == old(changes)@.room_account_data,
        final(changes)@.presence == old(changes)@.presence,
        final(changes)@.receipts == old(changes)@.receipts,
        final(changes)@.room_infos == old(changes)@.room_infos,
        final(changes)@.sync_token == old(changes)@.sync_token,
        // reported notifications only grow, with notifying events of this room
        final(notifications)@.len() >= old(notifications)@.len(),
        forall|i: int|
            #![auto]
            0 <= i < old(notifications)@.len() ==> final(notifications)@[i] == old(notifications)@[i],
        forall|i: int|
            #![auto]
            old(notifications)@.len() <= i < final(notifications)@.len() ==> final(notifications)@[i].0@ == room_id@ && final(notifications)@[i].1.actions.notify,
        // crypto commands only grow, with verification dispatches
        final(crypto_commands)@.len() >= old(crypto_commands)@.len(),
        forall|i: int|
            #![auto]
            0 <= i < old(crypto_commands)@.len() ==> final(crypto_commands)@[i] == old(crypto_commands)@[i],
        forall|i: int|
            #![trigger final(crypto_commands)@[i]]
            old(crypto_commands)@.len() <= i < final(crypto_commands)@.len() ==> final(crypto_commands)@[i] matches CryptoCommand::ReceiveVerificationEvent { .. },
        // with verification handling off or no crypto, nothing is dispatched
        (!crypto_enabled || !handle_verification_events) ==> final(crypto_commands)@ == old(crypto_commands)@,
        // with both on, every verification event of the batch is dispatched
        forall|i: int|
            #![trigger events@[i]]
            0 <= i < events@.len() && crypto_enabled && handle_verification_events
                && spec_is_verification(
                spec_out_parsed(events@[i].deep_view(), crypto_enabled, decryptions@),
            ) ==> exists|ci: int|
                0 <= ci < final(crypto_commands)@.len() && spec_is_verification_command(
                    #[trigger] final(crypto_commands)@[ci],
                    room_id@,
                    spec_out_raw(events@[i].deep_view(), crypto_enabled, decryptions@),
                ),
{
    let mut out: Vec<TimelineEventOut> = Vec::new();
    let mut push_ctx: Option<PushContextModel> = get_push_room_context(
        store,
        changes,
        room_id,
        own_user,
        room_info,
    );
    let n = events.len();
    for idx in 0..n
        invariant
            n == events@.len(),
            user_ids.wf(),
            changes.wf(),
            ambiguity.wf(),
            ambiguity.seeded == old(ambiguity).seeded,
            store.wf(),
            decryptions.wf(),
            out@.len() == idx,
            forall|i: int|
                #![trigger out@[i]]
                0 <= i < out@.len() ==> {
                    let ev = events@[i].deep_view();
                    &&& out@[i].raw@ == spec_out_raw(ev, crypto_enabled, decryptions@)
                    &&& out@[i].origin == spec_out_origin(ev, crypto_enabled, decryptions@)
                    &&& out@[i].parsed.deep_view() == spec_out_parsed(
                        ev,
                        crypto_enabled,
                        decryptions@,
                    )
                },
            room_info.room_id@ == old(room_info).room_id@,
            room_info.state == old(room_info).state,
            room_info.members_sync_status == old(room_info).members_sync_status,
            room_info.state_sync_status == old(room_info).state_sync_status,
            forall|u: Seq<char>|
                #![trigger changes@.profiles.contains_key((room_id@, u))]
                changes@.profiles.contains_key((room_id@, u)) && (!old(changes)@.profiles.contains_key((room_id@, u)) || changes@.profiles[(room_id@, u)] != old(changes)@.profiles[(room_id@, u)]) ==> exists|i: int|
                    0 <= i < idx && #[trigger] spec_event_self_profile(
                        events@[i].deep_view().parsed,
                        u,
                    ),
            forall|i: int|
                #![auto]
                0 <= i < idx && !ignore_state_events && spec_event_invites(
                    events@[i].deep_view().parsed,
                ) ==> crate::store::spec_pair_listed(
                    changes@.profiles_to_delete,
                    (room_id@, spec_event_state_key(events@[i].deep_view().parsed)),
                ),
            forall|p: (Seq<char>, Seq<char>)|
                #![trigger crate::store::spec_pair_listed(old(changes)@.profiles_to_delete, p)]
                crate::store::spec_pair_listed(old(changes)@.profiles_to_delete, p)
                    ==> crate::store::spec_pair_listed(changes@.profiles_to_delete, p),
            changes@.account_data == old(changes)@.account_data,
            changes@.stripped_state == old(changes)@.stripped_state,
            changes@.room_account_data == old(changes)@.room_account_data,
            changes@.presence == old(changes)@.presence,
            changes@.receipts == old(changes)@.receipts,
            changes@.room_infos == old(changes)@.room_infos,
            changes@.sync_token == old(changes)@.sync_token,
            notifications@.len() >= old(notifications)@.len(),
            forall|i: int|
                #![auto]
                0 <= i < old(notifications)@.len() ==> notifications@[i] == old(notifications)@[i],
            forall|i: int|
                #![auto]
                old(notifications)@.len() <= i < notifications@.len() ==> notifications@[i].0@
                    == room_id@ && notifications@[i].1.actions.notify,
            crypto_commands@.len() >= old(crypto_commands)@.len(),
            forall|i: int|
                #![auto]
                0 <= i < old(crypto_commands)@.len() ==> crypto_commands@[i] == old(crypto_commands)@[i],
            forall|i: int|
                #![trigger crypto_commands@[i]]
                old(crypto_commands)@.len() <= i < crypto_commands@.len() ==> crypto_commands@[i]
                    matches CryptoCommand::ReceiveVerificationEvent { .. },
            (!crypto_enabled || !handle_verification_events) ==> crypto_commands@ == old(crypto_commands)@,
            user_ids@ == spec_folded_user_ids(
                old(user_ids)@,
                events@,
                idx as int,
                ignore_state_events,
            ),
            changes@.state == spec_folded_timeline_state(
                old(changes)@.state,
                room_id@,
                events@,
                idx as int,
                ignore_state_events,
            ),
            changes@.redactions.remove_keys(
                Set::new(|k: (Seq<char>, Seq<char>)| k.0 == room_id@),
            ) == old(changes)@.redactions.remove_keys(
                Set::new(|k: (Seq<char>, Seq<char>)| k.0 == room_id@),
            ),
            forall|i: int|
                #![trigger events@[i]]
                0 <= i < idx && crypto_enabled && handle_verification_events
                    && spec_is_verification(
                    spec_out_parsed(events@[i].deep_view(), crypto_enabled, decryptions@),
                ) ==> exists|ci: int|
                    0 <= ci < crypto_commands@.len() && spec_is_verification_command(
                        #[trigger] crypto_commands@[ci],
                        room_id@,
                        spec_out_raw(events@[i].deep_view(), crypto_enabled, decryptions@),
                    ),
    {
        let ev = &events[idx];
        let ghost ev_v = events@[idx as int].deep_view();
        let ghost pre_changes = changes@;

        // Decryption outcome, when the event is encrypted and crypto is at
        // hand.
        let mut out_raw = ev.raw.clone();
        let mut out_event_id = ev.event_id.dup();
        let mut out_parsed = ev.parsed.dup();
        let mut origin = TimelineEventOrigin::PlainText;
        let encrypted = match &ev.parsed {
            Some(TimelineEventKind::Encrypted { .. }) => true,
            _ => false,
        };
        if encrypted && crypto_enabled {
            match decryptions.get(&ev.raw) {
                Some(DecryptionOutcome::Decrypted { raw, event_id, parsed }) => {
                    out_raw = raw.clone();
                    out_event_id = event_id.dup();
                    out_parsed = parsed.dup();
                    origin = TimelineEventOrigin::Decrypted;
                },
                Some(DecryptionOutcome::UnableToDecrypt { .. }) => {
                    origin = TimelineEventOrigin::UnableToDecrypt;
                },
                None => {},
            }
        }

        // An encrypted event that stayed encrypted becomes a candidate for
        // a later latest-event decryption.
        if encrypted && crypto_enabled && origin != TimelineEventOrigin::Decrypted {
            if latest_encrypted_events.len() >= 10 {
                latest_encrypted_events.remove(0);
            }
            latest_encrypted_events.push(ev.raw.clone());
        }

        // State events fold into the room summary, the member machinery and
        // the change set; redactions resolve their target.
        match &ev.parsed {
            Some(TimelineEventKind::State(e)) => {
                if !ignore_state_events {
                    match &e.content {
                        StateContent::Member(mc) => {
                            ambiguity.handle_member(
                                room_id,
                                &e.state_key,
                                MemberSnapshot {
                                    membership: mc.membership,
                                    displayname: mc.displayname.dup(),
                                },
                            );
                            if mc.membership.is_active() {
                                user_ids.insert(e.state_key.clone());
                            } else {
                                user_ids.remove(&e.state_key);
                            }
                            handle_room_member_event_for_profiles(room_id, e, changes);
                            proof {
                                if e.sender@ == e.state_key@ {
                                    assert(spec_event_self_profile(
                                        events@[idx as int].deep_view().parsed,
                                        e.state_key@,
                                    ));
                                }
                                if spec_member_content_is_invite(e.deep_view().content) {
                                    assert(changes@.profiles_to_delete.last() == (
                                        room_id@,
                                        e.state_key@,
                                    ));
                                    assert(crate::store::spec_pair_listed(
                                        changes@.profiles_to_delete,
                                        (room_id@, e.state_key@),
                                    ));
                                    assert(spec_event_invites(
                                        events@[idx as int].deep_view().parsed,
                                    ));
                                }
                            }
                        },
                        _ => {
                            room_info.handle_state_event(e);
                        },
                    }
                    changes.add_state_event(
                        room_id,
                        &e.event_type,
                        &e.state_key,
                        StateEventInput { raw: ev.raw.clone(), parsed: Some(e.dup()) },
                    );
                }
            },
            Some(TimelineEventKind::Redaction { redacts, content_redacts, .. }) => {
                if let Some(target) = redaction_target(
                    redacts,
                    content_redacts,
                    &room_info.room_version,
                ) {
                    room_info.handle_redaction(&target);
                    changes.add_redaction(room_id, &target, ev.raw.clone());
                }
            },
            _ => {},
        }

        // Verification events go to the host's verification machinery.
        let ghost pre_commands = crypto_commands@;
        if crypto_enabled && handle_verification_events && is_verification(&out_parsed) {
            proof {
                assert(out_parsed.deep_view() == spec_out_parsed(
                    ev_v,
                    crypto_enabled,
                    decryptions@,
                ));
                assert(out_raw@ == spec_out_raw(ev_v, crypto_enabled, decryptions@));
            }
            let ghost vci = crypto_commands@.len() as int;
            crypto_commands.push(
                CryptoCommand::ReceiveVerificationEvent {
                    room_id: room_id.clone(),
                    raw: out_raw.clone(),
                },
            );
            proof {
                assert(spec_is_verification_command(
                    crypto_commands@[vci],
                    room_id@,
                    spec_out_raw(ev_v, crypto_enabled, decryptions@),
                ));
            }
        }

        // Push evaluation, on the event's final raw form.
        match &mut push_ctx {
            Some(ctx) => {
                update_push_room_context(ctx, store, changes, room_id, own_user, room_info);
            },
            None => {
                push_ctx = get_push_room_context(store, changes, room_id, own_user, room_info);
            },
        }
        let push: Option<PushActions> = match &push_ctx {
            Some(ctx) => {
                match build_room_ctx_for(ctx) {
                    Some(ruma_ctx) => Some(evaluate_push(ruleset, &ruma_ctx, &out_raw)),
                    None => None,
                }
            },
            None => None,
        };
        if let Some(p) = &push {
            if p.notify {
                notifications.push(
                    (
                        room_id.clone(),
                        NotificationModel {
                            actions: PushActions { actions: p.dup_actions(), notify: true },
                            raw_event: out_raw.clone(),
                        },
                    ),
                );
            }
        }

        out.push(
            TimelineEventOut {
                raw: out_raw,
                event_id: out_event_id,
                parsed: out_parsed,
                origin,
                push,
            },
        );
        proof {
            assert(out@[idx as int].raw@ == spec_out_raw(ev_v, crypto_enabled, decryptions@));
            // the folds step as the specs say
            assert(user_ids@ =~= spec_folded_user_ids(
                old(user_ids)@,
                events@,
                idx as int + 1,
                ignore_state_events,
            ));
            assert(changes@.state =~= spec_folded_timeline_state(
                old(changes)@.state,
                room_id@,
                events@,
                idx as int + 1,
                ignore_state_events,
            ));
            // other rooms' redactions stay as they were
            assert(changes@.redactions.remove_keys(
                Set::new(|k: (Seq<char>, Seq<char>)| k.0 == room_id@),
            ) =~= pre_changes.redactions.remove_keys(
                Set::new(|k: (Seq<char>, Seq<char>)| k.0 == room_id@),
            ));
            // every verification event seen so far has its dispatch command
            assert forall|i: int|
                #![trigger events@[i]]
                0 <= i < idx + 1 && crypto_enabled && handle_verification_events
                    && spec_is_verification(
                    spec_out_parsed(events@[i].deep_view(), crypto_enabled, decryptions@),
                ) implies exists|ci: int|
                0 <= ci < crypto_commands@.len() && spec_is_verification_command(
                    #[trigger] crypto_commands@[ci],
                    room_id@,
                    spec_out_raw(events@[i].deep_view(), crypto_enabled, decryptions@),
                ) by {
                if i < idx {
                    let ci = choose|ci: int|
                        0 <= ci < pre_commands.len() && spec_is_verification_command(
                            #[trigger] pre_commands[ci],
                            room_id@,
                            spec_out_raw(events@[i].deep_view(), crypto_enabled, decryptions@),
                        );
                    assert(crypto_commands@[ci] == pre_commands[ci]);
                } else {
                    assert(crypto_commands@[crypto_commands@.len() - 1]
                        matches CryptoCommand::ReceiveVerificationEvent { .. });
                }
            }
            // the deletion list only grows
            assert forall|p: (Seq<char>, Seq<char>)|
                #![trigger crate::store::spec_pair_listed(pre_changes.profiles_to_delete, p)]
                crate::store::spec_pair_listed(
                    pre_changes.profiles_to_delete,
                    p,
                ) implies crate::store::spec_pair_listed(changes@.profiles_to_delete, p) by {
                let w = choose|w: int|
                    0 <= w < pre_changes.profiles_to_delete.len()
                        && pre_changes.profiles_to_delete[w] == p;
                assert(changes@.profiles_to_delete[w] == p);
            }
            // every profile that is new or changed relative to the start of
            // the call traces to a self-sent member event seen so far
            assert forall|u: Seq<char>|
                #![trigger changes@.profiles.contains_key((room_id@, u))]
                changes@.profiles.contains_key((room_id@, u)) && (!old(changes)@.profiles.contains_key((room_id@, u)) || changes@.profiles[(room_id@, u)] != old(changes)@.profiles[(room_id@, u)]) implies exists|i: int|
                    0 <= i < idx + 1 && #[trigger] spec_event_self_profile(
                        events@[i].deep_view().parsed,
                        u,
                    ) by {
                if pre_changes.profiles.contains_key((room_id@, u)) && changes@.profiles[
                    (room_id@, u)
                ] == pre_changes.profiles[(room_id@, u)] {
                    assert(pre_changes.profiles.contains_key((room_id@, u)) && (!old(changes)@.profiles.contains_key((room_id@, u)) || pre_changes.profiles[(room_id@, u)]
                        != old(changes)@.profiles[(room_id@, u)]));
                    let i = choose|i: int|
                        0 <= i < idx && #[trigger] spec_event_self_profile(
                            events@[i].deep_view().parsed,
                            u,
                        );
                    assert(spec_event_self_profile(events@[i].deep_view().parsed, u));
                }
            }
        }
    }
    out
}

/// Whether the event is a member event the member sent about themselves.
pub open spec fn spec_event_self_profile(parsed: Option<TimelineEventKindV>, u: Seq<char>) -> bool {
    match parsed {
        Some(TimelineEventKindV::State(e)) => e.content is Member && e.state_key == u && e.sender
            == u,
        _ => false,
    }
}

/// Whether the event invites its subject.
pub open spec fn spec_event_invites(parsed: Option<TimelineEventKindV>) -> bool {
    match parsed {
        Some(TimelineEventKindV::State(e)) => spec_member_content_is_invite(e.content),
        _ => false,
    }
}

/// The state key of a state event; arbitrary elsewhere.
pub open spec fn spec_event_state_key(parsed: Option<TimelineEventKindV>) -> Seq<char> {
    match parsed {
        Some(TimelineEventKindV::State(e)) => e.state_key,
        _ => arbitrary(),
    }
}

/// The display name the context uses for the logged-in user: the member
/// event in the pending state changes, then in the pending stripped state,
/// then in the store; within each, the event's display name or the user
/// id's localpart. Nothing, when no member event is at hand.
pub open spec fn spec_ctx_display_name(
    changes: StateChangesV,
    store: crate::store::StateStoreV,
    room: Seq<char>,
    user: Seq<char>,
) -> Option<Seq<char>> {
    let key = (room, "m.room.member"@, user);
    if changes.state.contains_key(key) && spec_member_display_of(changes.state[key]) is Some {
        spec_member_display_of_or_local(changes.state[key], user)
    } else if changes.stripped_state.contains_key(key) && spec_member_display_of(
        changes.stripped_state[key],
    ) is Some {
        spec_member_display_of_or_local(changes.stripped_state[key], user)
    } else if store.state.contains_key(key) && spec_member_display_of(store.state[key]) is Some {
        spec_member_display_of_or_local(store.state[key], user)
    } else {
        None
    }
}

/// Whether the stored event is a parsed member event; carries its display
/// name slot.
pub open spec fn spec_member_display_of(e: crate::events::StateEventInputV) -> Option<
    Option<Seq<char>>,
> {
    match e.parsed {
        Some(m) => match m.content {
            StateContentV::Member(mc) => Some(mc.displayname),
            _ => None,
        },
        None => None,
    }
}

pub open spec fn spec_member_display_of_or_local(
    e: crate::events::StateEventInputV,
    user: Seq<char>,
) -> Option<Seq<char>> {
    match spec_member_display_of(e) {
        Some(Some(d)) => Some(d),
        Some(None) => Some(spec_localpart(user)),
        None => None,
    }
}

/// The power levels the context uses: the pending state changes, then the
/// pending stripped state, then the store.
pub open spec fn spec_ctx_power_levels(
    changes: StateChangesV,
    store: crate::store::StateStoreV,
    room: Seq<char>,
) -> Option<crate::events::PowerLevelsV> {
    let key = (room, "m.room.power_levels"@, ""@);
    if changes.state.contains_key(key) && spec_power_levels_of(changes.state[key]) is Some {
        spec_power_levels_of(changes.state[key])
    } else if changes.stripped_state.contains_key(key) && spec_power_levels_of(
        changes.stripped_state[key],
    ) is Some {
        spec_power_levels_of(changes.stripped_state[key])
    } else if store.state.contains_key(key) && spec_power_levels_of(store.state[key]) is Some {
        spec_power_levels_of(store.state[key])
    } else {
        None
    }
}

pub open spec fn spec_power_levels_of(e: crate::events::StateEventInputV) -> Option<
    crate::events::PowerLevelsV,
> {
    match e.parsed {
        Some(m) => match m.content {
            StateContentV::PowerLevels(p) => Some(p),
            _ => None,
        },
        None => None,
    }
}

/// A member-display lookup against one table, reading back the engine's
/// model types.
fn member_display_in(e: &StateEventInput, user: &String) -> (r: Option<Option<String>>)
    ensures
        match r {
            Some(d) => spec_member_display_of(e.deep_view()) is Some && crate::util::opt_str_view(
                d,
            ) == spec_member_display_of(e.deep_view()).unwrap(),
            None => spec_member_display_of(e.deep_view()) is None,
        },
{
    match &e.parsed {
        Some(m) => match &m.content {
            StateContent::Member(mc) => Some(mc.displayname.dup()),
            _ => None,
        },
        None => None,
    }
}

fn power_levels_in(e: &StateEventInput) -> (r: Option<PowerLevelsContent>)
    ensures
        match r {
            Some(p) => spec_power_levels_of(e.deep_view()) == Some(p.deep_view()),
            None => spec_power_levels_of(e.deep_view()) is None,
        },
{
    match &e.parsed {
        Some(m) => match &m.content {
            StateContent::PowerLevels(p) => Some(p.dup()),
            _ => None,
        },
        None => None,
    }
}

/// Build the push context for a room, consulting the pending changes before
/// the store. Nothing comes back only when the logged-in user's own member
/// information is nowhere to be found.
pub fn get_push_room_context(
    store: &StateStore,
    changes: &StateChanges,
    room_id: &String,
    own_user: &String,
    room_info: &RoomInfo,
) -> (r: Option<PushContextModel>)
    requires
        store.wf(),
        changes.wf(),
    ensures
        match r {
            Some(c) => {
                &&& c.user_id@ == own_user@
                &&& c.room_id@ == room_id@
                &&& c.member_count == room_info.spec_active_members_count()
                &&& Some(c.user_display_name@) == spec_ctx_display_name(
                    changes@,
                    store@,
                    room_id@,
                    own_user@,
                )
                &&& c.power_levels.deep_view() == spec_ctx_power_levels(
                    changes@,
                    store@,
                    room_id@,
                )
            },
            None => spec_ctx_display_name(changes@, store@, room_id@, own_user@) is None,
        },
{
    let member_type: String = "m.room.member".to_owned();
    let pl_type: String = "m.room.power_levels".to_owned();
    let empty_key: String = "".to_owned();
    let key = (room_id.clone(), member_type, own_user.clone());

    let display: Option<Option<String>> = match changes.state.get(&key) {
        Some(e) => member_display_in(e, own_user),
        None => None,
    };
    let display = match display {
        Some(d) => Some(d),
        None => match changes.stripped_state.get(&key) {
            Some(e) => member_display_in(e, own_user),
            None => None,
        },
    };
    let display = match display {
        Some(d) => Some(d),
        None => match store.state.get(&key) {
            Some(e) => member_display_in(e, own_user),
            None => None,
        },
    };
    let user_display_name = match display {
        Some(Some(d)) => d,
        Some(None) => localpart(own_user),
        None => {
            return None;
        },
    };

    let pl_key = (room_id.clone(), pl_type, empty_key);
    let power: Option<PowerLevelsContent> = match changes.state.get(&pl_key) {
        Some(e) => power_levels_in(e),
        None => None,
    };
    let power = match power {
        Some(p) => Some(p),
        None => match changes.stripped_state.get(&pl_key) {
            Some(e) => power_levels_in(e),
            None => None,
        },
    };
    let power = match power {
        Some(p) => Some(p),
        None => match store.state.get(&pl_key) {
            Some(e) => power_levels_in(e),
            None => None,
        },
    };

    Some(
        PushContextModel {
            user_id: own_user.clone(),
            room_id: room_id.clone(),
            member_count: room_info.active_members_count(),
            user_display_name,
            power_levels: power,
        },
    )
}

/// Refresh an existing push context from the pending changes: the member
/// count always, the display name and power levels when the pending state
/// has fresher events.
pub fn update_push_room_context(
    ctx: &mut PushContextModel,
    store: &StateStore,
    changes: &StateChanges,
    room_id: &String,
    own_user: &String,
    room_info: &RoomInfo,
)
    requires
        store.wf(),
        changes.wf(),
    ensures
        final(ctx).member_count == room_info.spec_active_members_count(),
        final(ctx).user_id@ == old(ctx).user_id@,
        final(ctx).room_id@ == old(ctx).room_id@,
        // the display name is replaced exactly when the pending state holds
        // the user's own member event
        ({
            let key = (room_id@, "m.room.member"@, own_user@);
            if changes@.state.contains_key(key) && spec_member_display_of(
                changes@.state[key],
            ) is Some {
                Some(final(ctx).user_display_name@) == spec_member_display_of_or_local(
                    changes@.state[key],
                    own_user@,
                )
            } else {
                final(ctx).user_display_name@ == old(ctx).user_display_name@
            }
        }),
        // the power levels are replaced exactly when the pending state holds
        // a parsed power-levels event
        ({
            let pl_key = (room_id@, "m.room.power_levels"@, ""@);
            if changes@.state.contains_key(pl_key) && spec_power_levels_of(
                changes@.state[pl_key],
            ) is Some {
                final(ctx).power_levels.deep_view() == spec_power_levels_of(
                    changes@.state[pl_key],
                )
            } else {
                final(ctx).power_levels.deep_view() == old(ctx).power_levels.deep_view()
            }
        }),
{
    ctx.member_count = room_info.active_members_count();
    let member_type: String = "m.room.member".to_owned();
    let key = (room_id.clone(), member_type, own_user.clone());
    if let Some(e) = changes.state.get(&key) {
        if let Some(d) = member_display_in(e, own_user) {
            ctx.user_display_name = match d {
                Some(d) => d,
                None => localpart(own_user),
            };
        }
    }
    let pl_type: String = "m.room.power_levels".to_owned();
    let empty_key: String = "".to_owned();
    let pl_key = (room_id.clone(), pl_type, empty_key);
    if let Some(e) = changes.state.get(&pl_key) {
        if let Some(p) = power_levels_in(e) {
            ctx.power_levels = Some(p);
        }
    }
}

/// The per-user power level over view-level power levels.
pub open spec fn spec_level_in_v(
    users: Seq<(Seq<char>, i64)>,
    user: Seq<char>,
    dflt: i64,
) -> i64
    decreases users.len(),
{
    if users.len() == 0 {
        dflt
    } else if users[0].0 == user {
        users[0].1
    } else {
        spec_level_in_v(users.skip(1), user, dflt)
    }
}

pub proof fn lemma_level_in_views(
    users: Seq<(String, i64)>,
    usersv: Seq<(Seq<char>, i64)>,
    user: Seq<char>,
    dflt: i64,
)
    requires
        usersv.len() == users.len(),
        forall|i: int| 0 <= i < users.len() ==> #[trigger] usersv[i] == users[i].deep_view(),
    ensures
        spec_level_in_v(usersv, user, dflt) == PowerLevelsContent::spec_level_in(
            users,
            user,
            dflt,
        ),
    decreases users.len(),
{
    if users.len() > 0 {
        assert(usersv[0] == users[0].deep_view());
        assert forall|i: int|
            0 <= i < users.skip(1).len() implies #[trigger] usersv.skip(1)[i] == users.skip(
            1,
        )[i].deep_view() by {
            assert(usersv.skip(1)[i] == usersv[i + 1]);
            assert(users.skip(1)[i] == users[i + 1]);
        }
        lemma_level_in_views(users.skip(1), usersv.skip(1), user, dflt);
    }
}

/// Whether `user` may invite under view-level power levels.
pub open spec fn spec_can_invite_v(p: crate::events::PowerLevelsV, user: Seq<char>) -> bool {
    spec_level_in_v(p.users, user, p.users_default) >= p.invite
}

/// Whether a decrypted event can stand as a room's latest event: a room
/// message; a poll start, call invite, call notify or sticker; or a knock
/// the logged-in user has the power to act on.
pub open spec fn spec_suitable_latest(
    parsed: Option<TimelineEventKindV>,
    own_user: Seq<char>,
    power_levels: Option<crate::events::PowerLevelsV>,
) -> bool {
    match parsed {
        Some(TimelineEventKindV::Message { .. }) => true,
        Some(TimelineEventKindV::Other { event_type, .. }) => event_type == "m.poll.start"@
            || event_type == "m.call.invite"@ || event_type == "m.call.notify"@ || event_type
            == "m.sticker"@,
        Some(TimelineEventKindV::State(e)) => match e.content {
            StateContentV::Member(mc) => mc.membership == crate::events::Membership::Knock
                && (match power_levels {
                Some(p) => spec_can_invite_v(p, own_user),
                None => false,
            }),
            _ => false,
        },
        _ => false,
    }
}

fn is_suitable_latest(
    parsed: &Option<TimelineEventKind>,
    own_user: &String,
    power_levels: &Option<PowerLevelsContent>,
) -> (r: bool)
    ensures
        r == spec_suitable_latest(
            parsed.deep_view(),
            own_user@,
            power_levels.deep_view(),
        ),
{
    match parsed {
        Some(TimelineEventKind::Message { .. }) => true,
        Some(TimelineEventKind::Other { event_type, .. }) => str_is(event_type, "m.poll.start")
            || str_is(event_type, "m.call.invite") || str_is(event_type, "m.call.notify")
            || str_is(event_type, "m.sticker"),
        Some(TimelineEventKind::State(e)) => match &e.content {
            StateContent::Member(mc) => mc.membership == crate::events::Membership::Knock
                && (match power_levels {
                Some(p) => {
                    proof {
                        lemma_level_in_views(
                            p.users@,
                            p.users.deep_view(),
                            own_user@,
                            p.users_default,
                        );
                    }
                    p.can_invite(own_user)
                },
                None => false,
            }),
            _ => false,
        },
        _ => false,
    }
}

/// After a room-key update, try to promote a stored encrypted candidate to
/// the room's latest event: walk the candidates newest to oldest, take the
/// first that decrypts to a suitable event, and discard the candidates that
/// are not newer than it. Without such a candidate, nothing changes.
/// Whether the stored candidate at `i` decrypts to an event suitable as
/// the room's latest.
pub open spec fn spec_suitable_candidate(
    list: Seq<String>,
    dec: Map<Seq<char>, DecryptionOutcomeV>,
    own_user: Seq<char>,
    power_levels: Option<crate::events::PowerLevelsV>,
    i: int,
) -> bool {
    &&& 0 <= i < list.len()
    &&& dec.contains_key(list[i]@)
    &&& match dec[list[i]@] {
        DecryptionOutcomeV::Decrypted { parsed, .. } => spec_suitable_latest(
            parsed,
            own_user,
            power_levels,
        ),
        DecryptionOutcomeV::UnableToDecrypt { .. } => false,
    }
}

/// After a room-key update, try to promote a stored encrypted candidate to
/// the room's latest event: walk the candidates newest to oldest, take the
/// first that decrypts to a suitable event, and discard the candidates that
/// are not newer than it. Without such a candidate, nothing changes.
pub fn decrypt_latest_events(
    info: &mut RoomInfo,
    latest_encrypted_events: &mut Vec<String>,
    own_user: &String,
    decryptions: &KMap<String, DecryptionOutcome>,
) -> (found: bool)
    requires
        decryptions.wf(),
    ensures
        // something is promoted exactly when some candidate decrypts to a
        // suitable event
        found == exists|i: int|
            spec_suitable_candidate(
                old(latest_encrypted_events)@,
                decryptions@,
                own_user@,
                old(info).deep_view().power_levels,
                i,
            ),
        !found ==> *final(info) == *old(info) && *final(latest_encrypted_events) == *old(
            latest_encrypted_events,
        ),
        // and then it is the newest suitable candidate that is promoted
        found ==> exists|i: int|
            #![auto]
            spec_suitable_candidate(
                old(latest_encrypted_events)@,
                decryptions@,
                own_user@,
                old(info).deep_view().power_levels,
                i,
            ) && (forall|j: int|
                i < j < old(latest_encrypted_events)@.len() ==> !spec_suitable_candidate(
                    old(latest_encrypted_events)@,
                    decryptions@,
                    own_user@,
                    old(info).deep_view().power_levels,
                    j,
                )) && match decryptions@[old(latest_encrypted_events)@[i]@] {
                DecryptionOutcomeV::Decrypted { raw, event_id, parsed } => {
                    &&& final(info).deep_view() == (RoomInfoV {
                        latest_event: Some(crate::room::LatestEventV { raw, event_id }),
                        ..old(info).deep_view()
                    })
                    &&& final(latest_encrypted_events)@ == old(
                        latest_encrypted_events,
                    )@.subrange(i + 1, old(latest_encrypted_events)@.len() as int)
                },
                DecryptionOutcomeV::UnableToDecrypt { .. } => false,
            },
{
    let ghost list = latest_encrypted_events@;
    let ghost pl = info.deep_view().power_levels;
    let n = latest_encrypted_events.len();
    let mut i: usize = n;
    while i > 0
        invariant_except_break
            n == latest_encrypted_events@.len(),
            i <= n,
            decryptions.wf(),
            *latest_encrypted_events == *old(latest_encrypted_events),
            *info == *old(info),
            list == latest_encrypted_events@,
            pl == info.deep_view().power_levels,
            forall|j: int|
                i <= j < list.len() ==> !spec_suitable_candidate(
                    list,
                    decryptions@,
                    own_user@,
                    pl,
                    j,
                ),
        ensures
            *latest_encrypted_events == *old(latest_encrypted_events),
            *info == *old(info),
            forall|j: int|
                0 <= j < list.len() ==> !spec_suitable_candidate(
                    list,
                    decryptions@,
                    own_user@,
                    pl,
                    j,
                ),
        decreases i,
    {
        i -= 1;
        let candidate = &latest_encrypted_events[i];
        match decryptions.get(candidate) {
            Some(DecryptionOutcome::Decrypted { raw, event_id, parsed }) => {
                if is_suitable_latest(parsed, own_user, &info.power_levels) {
                    let model = crate::room::LatestEventModel {
                        raw: raw.clone(),
                        event_id: event_id.dup(),
                    };
                    let ghost iv = i as int;
                    proof {
                        assert(spec_suitable_candidate(list, decryptions@, own_user@, pl, iv));
                    }
                    info.latest_event = Some(model);
                    let rest = latest_encrypted_events.split_off(i + 1);
                    *latest_encrypted_events = rest;
                    return true;
                } else {
                    proof {
                        assert(!spec_suitable_candidate(list, decryptions@, own_user@, pl, i as int));
                    }
                }
            },
            _ => {
                proof {
                    assert(!spec_suitable_candidate(list, decryptions@, own_user@, pl, i as int));
                }
            },
        }
    }
    false
}

} // verus!
