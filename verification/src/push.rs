//! Push-rule evaluation: the engine owns the choice of ruleset and the room
//! context, and hands both with each event's raw JSON to ruma's evaluator.
//!
//! The ruleset and the computed actions are opaque values of ruma; what the
//! engine decides — which ruleset applies, and out of which sources the
//! room context is built — is verified here.

use vstd::prelude::*;

use crate::events::PowerLevelsContent;
use crate::room::SessionMeta;
use crate::store::StateStore;
use crate::util::DupView;

verus! {

/// The longest pattern the push machinery will evaluate, in bytes. Rule
/// matching compiles glob patterns and display names into regular
/// expressions; the regex engine refuses (and ruma's evaluator would panic
/// on) patterns whose compiled form exceeds its size limit. Bounding the
/// source text keeps compilation far below that limit, so evaluation always
/// returns.
pub const MAX_PUSH_PATTERN_BYTES: usize = 512;

#[verifier::external_type_specification]
#[verifier::external_body]
pub struct ExRuleset(ruma_common::push::Ruleset);

#[verifier::external_type_specification]
#[verifier::external_body]
pub struct ExAction(ruma_common::push::Action);

#[verifier::external_type_specification]
#[verifier::external_body]
pub struct ExPushConditionRoomCtx(ruma_common::push::PushConditionRoomCtx);

#[verifier::external_type_specification]
#[verifier::external_body]
pub struct ExPushConditionPowerLevelsCtx(ruma_common::push::PushConditionPowerLevelsCtx);

/// Whether a raw `m.push_rules` event deserializes into a ruleset: a
/// function of the raw text alone.
pub uninterp spec fn spec_push_rules_parse(raw: Seq<char>) -> bool;

/// Relies on serde_json and ruma's `Ruleset` deserialization: reads the
/// `content.global` ruleset out of a raw `m.push_rules` event. Rules whose
/// match pattern exceeds 512 bytes are dropped: ruma compiles patterns into
/// regular expressions and would panic once a server-supplied pattern's
/// compiled form exceeds the regex engine's size limit.
#[verifier::external_body]
fn parse_ruleset(raw: &str) -> (r: Option<ruma_common::push::Ruleset>)
    ensures
        r is Some == spec_push_rules_parse(raw@),
{
    let value: serde_json::Value = serde_json::from_str(raw).ok()?;
    let global = value.get("content")?.get("global")?;
    let mut ruleset: ruma_common::push::Ruleset = serde_json::from_value(global.clone()).ok()?;
    let fits = |pattern: &str| pattern.len() <= 512;
    let cond_fits = |c: &ruma_common::push::PushCondition| match c {
        ruma_common::push::PushCondition::EventMatch { pattern, .. } => fits(pattern),
        _ => true,
    };
    ruleset.content.retain(|rule| fits(&rule.pattern));
    ruleset.override_.retain(|rule| rule.conditions.iter().all(cond_fits));
    ruleset.underride.retain(|rule| rule.conditions.iter().all(cond_fits));
    Some(ruleset)
}

/// Relies on ruma's `Ruleset::server_default` and `UserId::parse`: the
/// server-default ruleset for the user, or the empty ruleset when the user
/// id does not parse or exceeds 512 bytes. The default rules use the id's
/// localpart as a match pattern, so an absurdly long id would make rule
/// evaluation panic in the regex engine; such an id gets no default rules.
#[verifier::external_body]
fn server_default_ruleset(user_id: &str) -> (r: ruma_common::push::Ruleset)
{
    if user_id.len() > 512 {
        return ruma_common::push::Ruleset::new();
    }
    match ruma_common::UserId::parse(user_id) {
        Ok(uid) => ruma_common::push::Ruleset::server_default(&uid),
        Err(_) => ruma_common::push::Ruleset::new(),
    }
}

/// Relies on ruma's `Ruleset::new`: the empty ruleset.
#[verifier::external_body]
fn empty_ruleset() -> (r: ruma_common::push::Ruleset)
{
    ruma_common::push::Ruleset::new()
}

/// Relies on ruma's `PushConditionPowerLevelsCtx` and `UserId::parse`:
/// converts the engine's power-levels model, dropping entries whose user id
/// does not parse and saturating out-of-range levels.
#[verifier::external_body]
fn build_power_levels_ctx(p: &PowerLevelsContent) -> (r:
    ruma_common::push::PushConditionPowerLevelsCtx)
{
    let users = p.users.iter().filter_map(
        |(u, l)| Some((ruma_common::UserId::parse(u).ok()?, js_int::Int::new_saturating(*l))),
    ).collect();
    let mut notifications = ruma_common::power_levels::NotificationPowerLevels::new();
    notifications.room = js_int::Int::new_saturating(p.notifications_room);
    ruma_common::push::PushConditionPowerLevelsCtx {
        users,
        users_default: js_int::Int::new_saturating(p.users_default),
        notifications,
    }
}

/// Relies on ruma's `PushConditionRoomCtx`, `UserId::parse` and
/// `RoomId::parse`: builds the evaluation context, or nothing when an id
/// does not parse; a member count beyond range saturates.
#[verifier::external_body]
fn build_room_ctx(
    user_id: &str,
    room_id: &str,
    member_count: u64,
    user_display_name: &str,
    power_levels: Option<ruma_common::push::PushConditionPowerLevelsCtx>,
) -> (r: Option<ruma_common::push::PushConditionRoomCtx>)
{
    let user_id = ruma_common::UserId::parse(user_id).ok()?;
    let room_id = ruma_common::RoomId::parse(room_id).ok()?;
    Some(ruma_common::push::PushConditionRoomCtx {
        room_id,
        member_count: js_int::UInt::new(member_count).unwrap_or(js_int::UInt::MAX),
        user_id,
        user_display_name: user_display_name.to_owned(),
        power_levels,
    })
}

/// Relies on ruma's `Ruleset::get_actions` and `Raw::from_json_string`: the
/// actions the ruleset assigns to the raw event in the given context; no
/// actions when the raw JSON is invalid. The call always returns: rule
/// matching compiles patterns into regular expressions, and every pattern
/// reaching it is bounded — custom rules at parse, the server-default
/// rules by the user id bound, the display name by the context builder —
/// so compilation stays far below the regex engine's size limit.
#[verifier::external_body]
fn ruleset_actions(
    ruleset: &ruma_common::push::Ruleset,
    ctx: &ruma_common::push::PushConditionRoomCtx,
    raw_event: &str,
) -> (r: Vec<ruma_common::push::Action>)
{
    match ruma_common::serde::Raw::<serde_json::Value>::from_json_string(raw_event.to_owned()) {
        Ok(raw) => ruleset.get_actions(&raw, ctx).to_vec(),
        Err(_) => Vec::new(),
    }
}

/// Relies on ruma's `Action::should_notify`.
#[verifier::external_body]
fn action_should_notify(action: &ruma_common::push::Action) -> (r: bool)
{
    action.should_notify()
}

/// The room context the engine builds for push evaluation, as plain data.
pub struct PushContextModel {
    pub user_id: String,
    pub room_id: String,
    pub member_count: u64,
    pub user_display_name: String,
    pub power_levels: Option<PowerLevelsContent>,
}

/// Convert the engine's context model into ruma's evaluation context;
/// nothing comes back when an id does not parse, or when the display name
/// is longer than any pattern the push machinery will evaluate — ruma
/// compiles the display name into a regular expression, and an oversized
/// one would panic in the regex engine, so such a context is withheld and
/// push evaluation skips the room's events.
pub fn build_room_ctx_for(ctx: &PushContextModel) -> (r: Option<
    ruma_common::push::PushConditionRoomCtx,
>)
{
    if ctx.user_display_name.as_str().len() > MAX_PUSH_PATTERN_BYTES {
        return None;
    }
    let power = match &ctx.power_levels {
        Some(p) => Some(build_power_levels_ctx(p)),
        None => None,
    };
    build_room_ctx(
        ctx.user_id.as_str(),
        ctx.room_id.as_str(),
        ctx.member_count,
        ctx.user_display_name.as_str(),
        power,
    )
}

/// The actions computed for one event, with whether any of them notifies.
/// Only the notify flag is visible to contracts; the actions themselves are
/// opaque values of ruma, carried for the host.
pub struct PushActions {
    pub actions: Vec<ruma_common::push::Action>,
    pub notify: bool,
}

impl DeepView for PushActions {
    type V = bool;

    open spec fn deep_view(&self) -> bool {
        self.notify
    }
}

impl PushActions {
    /// An owned copy of the opaque actions.
    pub fn dup_actions(&self) -> (r: Vec<ruma_common::push::Action>) {
        self.actions.clone()
    }
}

/// Evaluate the ruleset on one raw event: the returned actions are ruma's,
/// and the notify flag records whether any of them said to notify.
///
/// The ruleset and the actions are opaque values of ruma; the library does
/// not model the contents of a rule collection, so no contract can pin
/// which actions come back. What is stated is what the library itself
/// guarantees of the flag: no actions, no notification.
pub fn evaluate_push(
    ruleset: &ruma_common::push::Ruleset,
    ctx: &ruma_common::push::PushConditionRoomCtx,
    raw_event: &String,
) -> (r: PushActions)
    ensures
        r.actions@.len() == 0 ==> !r.notify,
{
    let actions = ruleset_actions(ruleset, ctx, raw_event.as_str());
    let mut notify = false;
    let n = actions.len();
    for i in 0..n
        invariant
            n == actions@.len(),
            actions@.len() == 0 ==> !notify,
    {
        if action_should_notify(&actions[i]) {
            notify = true;
        }
    }
    PushActions { actions, notify }
}

/// Where the effective ruleset of a sync came from.
#[derive(Clone, Copy, Debug, PartialEq, Eq, Structural)]
pub enum RulesetSource {
    /// The response's own `m.push_rules` account-data event.
    Response,
    /// The `m.push_rules` event persisted in the store.
    Persisted,
    /// The server-default rules of the logged-in user.
    ServerDefault,
    /// No rules anywhere and nobody logged in: the empty ruleset.
    Empty,
}

impl DeepView for RulesetSource {
    type V = RulesetSource;

    open spec fn deep_view(&self) -> RulesetSource {
        *self
    }
}

/// Whether a raw account-data event was found under `m.push_rules`.
pub open spec fn spec_stored_push_rules(store: &StateStore) -> bool {
    store@.account_data.contains_key("m.push_rules"@)
}

/// Pick the effective ruleset of a sync, by precedence: the response's
/// push-rules event, then the persisted one, then the server default for
/// the logged-in user, then the empty ruleset. A present event whose
/// content does not parse falls through to the next source.
pub fn get_push_rules(
    response_rules: &Option<String>,
    store: &StateStore,
    session: &Option<SessionMeta>,
) -> (r: (ruma_common::push::Ruleset, RulesetSource))
    requires
        store.wf(),
    ensures
        r.1 == RulesetSource::Response ==> response_rules is Some,
        r.1 == RulesetSource::Persisted ==> spec_stored_push_rules(store),
        r.1 == RulesetSource::ServerDefault ==> session is Some,
        // a parseable response ruleset always wins
        (match response_rules {
            Some(raw) => spec_push_rules_parse(raw@),
            None => false,
        }) ==> r.1 == RulesetSource::Response,
        // failing that, a parseable persisted ruleset wins
        (match response_rules {
            Some(raw) => !spec_push_rules_parse(raw@),
            None => true,
        }) && spec_stored_push_rules(store) && spec_push_rules_parse(
            store@.account_data["m.push_rules"@].raw,
        ) ==> r.1 == RulesetSource::Persisted,
        (response_rules is None && !spec_stored_push_rules(store) && session is Some) ==> r.1
            == RulesetSource::ServerDefault,
        (response_rules is None && !spec_stored_push_rules(store) && session is None) ==> r.1
            == RulesetSource::Empty,
{
    if let Some(raw) = response_rules {
        if let Some(ruleset) = parse_ruleset(raw.as_str()) {
            return (ruleset, RulesetSource::Response);
        }
    }
    let key: String = "m.push_rules".to_owned();
    if let Some(event) = store.get_account_data_event(&key) {
        if let Some(ruleset) = parse_ruleset(event.raw.as_str()) {
            return (ruleset, RulesetSource::Persisted);
        }
    }
    if let Some(meta) = session {
        return (server_default_ruleset(meta.user_id.as_str()), RulesetSource::ServerDefault);
    }
    (empty_ruleset(), RulesetSource::Empty)
}

} // verus!
