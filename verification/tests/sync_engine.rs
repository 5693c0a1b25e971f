use matrix_sdk_base::client::{BaseClient, MembersRequest, MembersResponse};
use matrix_sdk_base::events::{
    AccountDataContent, AccountDataEvent, FullMemberEvent, MemberContent, MemberEventInput,
    Membership, StateContent, StateEventInput, StateEventModel, TimelineEventInput,
    TimelineEventKind,
};
use matrix_sdk_base::kmap::KMap;
use matrix_sdk_base::push::{get_push_rules, RulesetSource};
use matrix_sdk_base::response::{
    CryptoCommand, CryptoSyncOutcome, InvitedRoomInput, JoinedRoomInput, LeftRoomInput, SyncInput,
    TimelineInput,
};
use matrix_sdk_base::room::{MembersSyncStatus, NotificationCounts, RoomState, SessionMeta};
use matrix_sdk_base::events::PresenceEventInput;

fn empty_sync(next_batch: &str) -> SyncInput {
    SyncInput {
        next_batch: next_batch.to_owned(),
        join: vec![],
        leave: vec![],
        invite: vec![],
        knock: vec![],
        account_data: vec![],
        presence: vec![],
        to_device: vec![],
        crypto: None,
        decryptions: KMap::new(),
    }
}

fn empty_joined() -> JoinedRoomInput {
    JoinedRoomInput {
        summary_joined_count: None,
        summary_invited_count: None,
        timeline: TimelineInput { limited: false, prev_batch: None, events: vec![] },
        state: vec![],
        ephemeral: vec![],
        account_data: vec![],
        notification_counts: NotificationCounts { highlight_count: 0, notification_count: 0 },
    }
}

fn member_event(sender: &str, state_key: &str, membership: Membership, name: Option<&str>) -> StateEventInput {
    StateEventInput {
        raw: format!("{{\"type\":\"m.room.member\",\"sender\":\"{sender}\",\"state_key\":\"{state_key}\"}}"),
        parsed: Some(StateEventModel {
            event_type: "m.room.member".to_owned(),
            state_key: state_key.to_owned(),
            sender: sender.to_owned(),
            content: StateContent::Member(MemberContent {
                membership,
                displayname: name.map(|n| n.to_owned()),
                avatar_url: None,
            }),
        }),
    }
}

fn logged_in_client() -> BaseClient {
    let mut client = BaseClient::new();
    client
        .activate(SessionMeta {
            user_id: "@alice:example.org".to_owned(),
            device_id: "DEVICE".to_owned(),
        })
        .unwrap();
    client
}

#[test]
fn test_replayed_sync_is_a_no_op() {
    let mut client = logged_in_client();
    let mut sync = empty_sync("batch-1");
    sync.join.push(("!room:example.org".to_owned(), empty_joined()));

    let first = client.receive_sync_response(&sync);
    assert_eq!(first.rooms_join.len(), 1);
    assert_eq!(client.sync_token(), Some("batch-1".to_owned()));

    // The same token again: an empty answer, and nothing changes.
    let second = client.receive_sync_response(&sync);
    assert!(second.rooms_join.is_empty());
    assert!(second.room_info_notable_updates.is_empty());
    assert!(second.ignored_user_list_publish.is_none());
    assert_eq!(client.sync_token(), Some("batch-1".to_owned()));
}

#[test]
fn test_room_state_follows_most_recent_bucket() {
    let mut client = logged_in_client();
    let room_id = "!test:example.org".to_owned();

    // The user left the room earlier.
    let mut sync = empty_sync("batch-1");
    sync.leave.push((
        room_id.clone(),
        LeftRoomInput {
            timeline: TimelineInput { limited: false, prev_batch: None, events: vec![] },
            state: vec![],
            account_data: vec![],
        },
    ));
    client.receive_sync_response(&sync);
    assert_eq!(client.get_room(&room_id).unwrap().info.state, RoomState::Left);

    // An invite arrives as stripped state: the room is invited afterwards.
    let mut sync = empty_sync("batch-2");
    sync.invite.push((
        room_id.clone(),
        InvitedRoomInput {
            events: vec![member_event(
                "@example:example.org",
                "@alice:example.org",
                Membership::Invite,
                Some("Alice"),
            )],
        },
    ));
    client.receive_sync_response(&sync);
    assert_eq!(client.get_room(&room_id).unwrap().info.state, RoomState::Invited);
}

#[test]
fn test_repeated_invite_application_is_idempotent() {
    let mut client = logged_in_client();
    let room_id = "!invited:example.org".to_owned();
    let invite = InvitedRoomInput {
        events: vec![member_event(
            "@example:example.org",
            "@alice:example.org",
            Membership::Invite,
            Some("Alice"),
        )],
    };

    let mut sync = empty_sync("batch-1");
    sync.invite.push((room_id.clone(), invite));
    client.receive_sync_response(&sync);
    let first = client.get_room(&room_id).unwrap();

    let invite_again = InvitedRoomInput {
        events: vec![member_event(
            "@example:example.org",
            "@alice:example.org",
            Membership::Invite,
            Some("Alice"),
        )],
    };
    let mut sync = empty_sync("batch-2");
    sync.invite.push((room_id.clone(), invite_again));
    client.receive_sync_response(&sync);
    let second = client.get_room(&room_id).unwrap();

    assert_eq!(first.info.state, second.info.state);
    assert_eq!(first.info.state_sync_status, second.info.state_sync_status);
    assert_eq!(first.info.name, second.info.name);
}

#[test]
fn test_limited_timeline_marks_members_missing() {
    let mut client = logged_in_client();
    let room_id = "!limited:example.org".to_owned();
    let mut joined = empty_joined();
    joined.timeline.limited = true;
    let mut sync = empty_sync("batch-1");
    sync.join.push((room_id.clone(), joined));
    client.receive_sync_response(&sync);
    assert_eq!(
        client.get_room(&room_id).unwrap().info.members_sync_status,
        MembersSyncStatus::Missing
    );
}

#[test]
fn test_third_party_profiles_are_not_stored() {
    let mut client = logged_in_client();
    let room_id = "!profiles:example.org".to_owned();
    let mut joined = empty_joined();
    // Bob sets his own profile; Carol's membership comes from someone else.
    joined.state.push(member_event("@bob:example.org", "@bob:example.org", Membership::Join, Some("Bob")));
    joined.state.push(member_event("@admin:example.org", "@carol:example.org", Membership::Join, Some("Fake Carol")));
    let mut sync = empty_sync("batch-1");
    sync.join.push((room_id.clone(), joined));
    client.receive_sync_response(&sync);

    // Bob's self-declared profile is stored.
    let bob = client.get_member(&room_id, &"@bob:example.org".to_owned()).unwrap();
    assert_eq!(bob.displayname, Some("Bob".to_owned()));
    // Carol has no stored self-declared profile; the member event itself is
    // all that is known.
    assert!(client
        .state_store
        .get_profile(&room_id, &"@carol:example.org".to_owned())
        .is_none());
}

#[test]
fn test_reinvite_after_leave_stores_fresh_profile() {
    let mut client = logged_in_client();
    let room_id = "!reinvite:example.org".to_owned();

    // A leave with a synthetic empty profile, self-sent.
    let mut joined = empty_joined();
    joined.state.push(member_event("@alice:example.org", "@alice:example.org", Membership::Leave, None));
    let mut sync = empty_sync("batch-1");
    sync.join.push((room_id.clone(), joined));
    client.receive_sync_response(&sync);
    let profile = client.state_store.get_profile(&room_id, &"@alice:example.org".to_owned());
    assert!(profile.is_some());
    assert_eq!(profile.unwrap().displayname, None);

    // The re-invite schedules the stale profile's removal; the member event
    // carries the fresh name.
    let response = MembersResponse {
        chunk: vec![MemberEventInput {
            raw: "{\"type\":\"m.room.member\"}".to_owned(),
            parsed: Some(FullMemberEvent {
                state_key: "@alice:example.org".to_owned(),
                sender: "@example:example.org".to_owned(),
                content: MemberContent {
                    membership: Membership::Invite,
                    displayname: Some("Invited Alice".to_owned()),
                    avatar_url: None,
                },
                is_original: true,
            }),
        }],
    };
    let request = MembersRequest { membership: None, not_membership: None, at: None };
    let out = client.receive_all_members(&room_id, &request, &response).unwrap();
    assert!(out.known_room);
    assert!(out.full_reload);

    let member = client.get_member(&room_id, &"@alice:example.org".to_owned()).unwrap();
    assert_eq!(member.displayname, Some("Invited Alice".to_owned()));
    assert_eq!(
        client.get_room(&room_id).unwrap().info.members_sync_status,
        MembersSyncStatus::Synced
    );
}

#[test]
fn test_receive_all_members_rejects_filtered_requests() {
    let mut client = logged_in_client();
    let room_id = "!any:example.org".to_owned();
    let request = MembersRequest {
        membership: Some("join".to_owned()),
        not_membership: None,
        at: None,
    };
    let response = MembersResponse { chunk: vec![] };
    let r = client.receive_all_members(&room_id, &request, &response);
    let err = match r {
        Ok(_) => panic!("a filtered member request must be rejected"),
        Err(e) => e,
    };
    assert_eq!(err, matrix_sdk_base::error::EngineError::InvalidReceiveMembersParameters);
}

#[test]
fn test_ambiguous_display_names_are_reported() {
    let mut client = logged_in_client();
    let room_id = "!names:example.org".to_owned();
    let mut joined = empty_joined();
    joined.state.push(member_event("@kyra1:example.org", "@kyra1:example.org", Membership::Join, Some("Kyra")));
    joined.state.push(member_event("@kyra2:example.org", "@kyra2:example.org", Membership::Join, Some("Kyra")));
    let mut sync = empty_sync("batch-1");
    sync.join.push((room_id.clone(), joined));
    let out = client.receive_sync_response(&sync);

    let changes = &out.rooms_join[0].1.ambiguity_changes;
    // The first bearer of the name was unique; the second made it ambiguous.
    assert_eq!(changes.len(), 2);
    assert_eq!(changes[0].user_id, "@kyra1:example.org");
    assert!(!changes[0].ambiguous);
    assert_eq!(changes[1].user_id, "@kyra2:example.org");
    assert!(changes[1].ambiguous);
}

#[test]
fn test_ignored_user_list_publishes_only_on_change() {
    let mut client = logged_in_client();

    let ignored = AccountDataEvent {
        event_type: "m.ignored_user_list".to_owned(),
        raw: "{\"type\":\"m.ignored_user_list\"}".to_owned(),
        parsed: Some(AccountDataContent::IgnoredUserList {
            ignored_users: vec!["@bob:example.org".to_owned()],
        }),
    };

    let mut sync = empty_sync("batch-1");
    sync.account_data.push(AccountDataEvent {
        event_type: ignored.event_type.clone(),
        raw: ignored.raw.clone(),
        parsed: Some(AccountDataContent::IgnoredUserList {
            ignored_users: vec!["@bob:example.org".to_owned()],
        }),
    });
    let first = client.receive_sync_response(&sync);
    assert_eq!(first.ignored_user_list_publish, Some(vec!["@bob:example.org".to_owned()]));

    let mut sync = empty_sync("batch-2");
    sync.account_data.push(ignored);
    let second = client.receive_sync_response(&sync);
    assert_eq!(second.ignored_user_list_publish, None);

    let mut sync = empty_sync("batch-3");
    sync.account_data.push(AccountDataEvent {
        event_type: "m.ignored_user_list".to_owned(),
        raw: "{\"type\":\"m.ignored_user_list\"}".to_owned(),
        parsed: Some(AccountDataContent::IgnoredUserList { ignored_users: vec![] }),
    });
    let third = client.receive_sync_response(&sync);
    assert_eq!(third.ignored_user_list_publish, Some(vec![]));
}

#[test]
fn test_push_rules_fall_back_to_server_default() {
    let client = logged_in_client();
    let (_ruleset, source) = get_push_rules(&None, &client.state_store, &client.session);
    assert_eq!(source, RulesetSource::ServerDefault);

    let logged_out = BaseClient::new();
    let (_ruleset, source) = get_push_rules(&None, &logged_out.state_store, &logged_out.session);
    assert_eq!(source, RulesetSource::Empty);
}

#[test]
fn test_all_timeline_events_come_back_in_order() {
    let mut client = logged_in_client();
    let room_id = "!beacons:example.org".to_owned();
    let mut joined = empty_joined();
    for i in 0..75 {
        joined.timeline.events.push(TimelineEventInput {
            raw: format!("{{\"type\":\"m.beacon\",\"n\":{i}}}"),
            event_id: Some(format!("$beacon{i}")),
            parsed: Some(TimelineEventKind::Other {
                event_type: "m.beacon".to_owned(),
                sender: "@bob:example.org".to_owned(),
            }),
        });
    }
    let mut sync = empty_sync("batch-1");
    sync.join.push((room_id.clone(), joined));
    let out = client.receive_sync_response(&sync);

    let events = &out.rooms_join[0].1.timeline.events;
    assert_eq!(events.len(), 75);
    for i in 0..75 {
        assert_eq!(events[i].raw, format!("{{\"type\":\"m.beacon\",\"n\":{i}}}"));
    }
}

#[test]
fn test_encryption_onset_tracks_known_members() {
    let mut client = logged_in_client();
    client.crypto_enabled = true;
    let room_id = "!crypto:example.org".to_owned();

    // First sync: two members join, the room is not encrypted.
    let mut joined = empty_joined();
    joined.state.push(member_event("@bob:example.org", "@bob:example.org", Membership::Join, Some("Bob")));
    joined.state.push(member_event("@carol:example.org", "@carol:example.org", Membership::Join, Some("Carol")));
    let mut sync = empty_sync("batch-1");
    sync.crypto = Some(CryptoSyncOutcome { decrypted_to_device: vec![], room_key_updates: vec![] });
    sync.join.push((room_id.clone(), joined));
    client.receive_sync_response(&sync);

    // Second sync: encryption turns on; the tracking command covers the
    // store-known members.
    let mut joined = empty_joined();
    joined.state.push(StateEventInput {
        raw: "{\"type\":\"m.room.encryption\"}".to_owned(),
        parsed: Some(StateEventModel {
            event_type: "m.room.encryption".to_owned(),
            state_key: "".to_owned(),
            sender: "@admin:example.org".to_owned(),
            content: StateContent::Encryption(matrix_sdk_base::events::EncryptionContent {
                algorithm: "m.megolm.v1.aes-sha2".to_owned(),
                rotation_period_ms: None,
                rotation_period_msgs: None,
            }),
        }),
    });
    let mut sync = empty_sync("batch-2");
    sync.crypto = Some(CryptoSyncOutcome { decrypted_to_device: vec![], room_key_updates: vec![] });
    sync.join.push((room_id.clone(), joined));
    let out = client.receive_sync_response(&sync);

    let mut covered: Vec<String> = vec![];
    for command in &out.crypto_commands {
        if let CryptoCommand::UpdateTrackedUsers { users } = command {
            covered.extend(users.iter().cloned());
        }
    }
    assert!(covered.contains(&"@bob:example.org".to_owned()));
    assert!(covered.contains(&"@carol:example.org".to_owned()));
}

#[test]
fn test_no_latest_candidates_mean_no_latest_event() {
    let mut client = logged_in_client();
    client.crypto_enabled = true;
    let room_id = "!latest:example.org".to_owned();

    let mut sync = empty_sync("batch-1");
    sync.crypto = Some(CryptoSyncOutcome { decrypted_to_device: vec![], room_key_updates: vec![] });
    sync.join.push((room_id.clone(), empty_joined()));
    client.receive_sync_response(&sync);

    // A room-key update for a room without stored encrypted candidates:
    // nothing changes, and nothing is notable about the latest event.
    let mut sync = empty_sync("batch-2");
    sync.crypto = Some(CryptoSyncOutcome {
        decrypted_to_device: vec![],
        room_key_updates: vec![room_id.clone()],
    });
    let out = client.receive_sync_response(&sync);
    assert!(client.get_room(&room_id).unwrap().info.latest_event.is_none());
    for (_, reasons) in &out.room_info_notable_updates {
        assert!(!reasons.latest_event);
    }
}

#[test]
fn test_filter_ids_round_trip() {
    let mut client = logged_in_client();
    let name = "sync-filter".to_owned();
    assert!(client.get_filter(&name).is_none());
    client.receive_filter_upload(&name, "filter-id-1".to_owned());
    assert_eq!(client.get_filter(&name), Some("filter-id-1".to_owned()));
}

#[test]
fn test_members_response_buckets_hold_active_members_only() {
    let mut client = logged_in_client();
    let room_id = "!buckets:example.org".to_owned();
    let mut sync = empty_sync("batch-1");
    sync.join.push((room_id.clone(), empty_joined()));
    client.receive_sync_response(&sync);

    let member = |state_key: &str, membership: Membership| MemberEventInput {
        raw: "{\"type\":\"m.room.member\"}".to_owned(),
        parsed: Some(FullMemberEvent {
            state_key: state_key.to_owned(),
            sender: state_key.to_owned(),
            content: MemberContent {
                membership,
                displayname: Some("Kyra".to_owned()),
                avatar_url: None,
            },
            is_original: true,
        }),
    };
    let response = MembersResponse {
        chunk: vec![
            member("@joined:example.org", Membership::Join),
            member("@gone:example.org", Membership::Leave),
        ],
    };
    let request = MembersRequest { membership: None, not_membership: None, at: None };
    client.receive_all_members(&room_id, &request, &response).unwrap_or_else(|_| panic!());

    // The committed bucket for "Kyra" holds the joined member and not the
    // one who left.
    let bucket = client
        .state_store
        .ambiguity_maps
        .get(&(room_id.clone(), "Kyra".to_owned()))
        .expect("the display name must have a bucket");
    assert!(bucket.contains(&"@joined:example.org".to_owned()));
    assert!(!bucket.contains(&"@gone:example.org".to_owned()));
}

#[test]
fn test_verification_events_are_dispatched_only_with_crypto() {
    let verification_timeline = || {
        let mut joined = empty_joined();
        joined.timeline.events.push(TimelineEventInput {
            raw: "{\"type\":\"m.key.verification.start\"}".to_owned(),
            event_id: Some("$verif".to_owned()),
            parsed: Some(TimelineEventKind::Other {
                event_type: "m.key.verification.start".to_owned(),
                sender: "@bob:example.org".to_owned(),
            }),
        });
        joined
    };

    // With crypto attached, the verification event yields a dispatch.
    let mut client = logged_in_client();
    client.crypto_enabled = true;
    let mut sync = empty_sync("batch-1");
    sync.crypto = Some(CryptoSyncOutcome { decrypted_to_device: vec![], room_key_updates: vec![] });
    sync.join.push(("!verif:example.org".to_owned(), verification_timeline()));
    let out = client.receive_sync_response(&sync);
    let dispatched = out.crypto_commands.iter().any(|c| {
        matches!(c, CryptoCommand::ReceiveVerificationEvent { room_id, .. } if room_id == "!verif:example.org")
    });
    assert!(dispatched);

    // Without crypto, nothing is dispatched.
    let mut client = logged_in_client();
    let mut sync = empty_sync("batch-1");
    sync.join.push(("!verif:example.org".to_owned(), verification_timeline()));
    let out = client.receive_sync_response(&sync);
    assert!(out.crypto_commands.is_empty());
}

#[test]
fn test_room_joined_ticks_membership_on_change_only() {
    let mut client = logged_in_client();
    let room_id = "!joined:example.org".to_owned();

    let mut sync = empty_sync("batch-1");
    sync.leave.push((
        room_id.clone(),
        LeftRoomInput {
            timeline: TimelineInput { limited: false, prev_batch: None, events: vec![] },
            state: vec![],
            account_data: vec![],
        },
    ));
    client.receive_sync_response(&sync);

    let (room, reasons) = client.room_joined(&room_id);
    assert_eq!(room.info.state, RoomState::Joined);
    assert!(reasons.membership);
    assert_eq!(room.info.members_sync_status, MembersSyncStatus::Missing);

    // Joining an already joined room changes nothing and ticks nobody.
    let (_room, reasons) = client.room_joined(&room_id);
    assert!(!reasons.membership);
}

#[test]
fn test_presence_is_committed_by_sender() {
    let mut client = logged_in_client();
    let mut sync = empty_sync("batch-1");
    sync.presence.push(PresenceEventInput {
        raw: "{\"type\":\"m.presence\",\"sender\":\"@bob:example.org\"}".to_owned(),
        sender: Some("@bob:example.org".to_owned()),
    });
    sync.presence.push(PresenceEventInput {
        raw: "{\"type\":\"m.presence\"}".to_owned(),
        sender: None,
    });
    let out = client.receive_sync_response(&sync);
    assert_eq!(out.presence.len(), 2);
    assert!(client.state_store.presence.get(&"@bob:example.org".to_owned()).is_some());
    assert_eq!(client.state_store.presence.len(), 1);
}
