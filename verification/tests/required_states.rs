use matrix_sdk_base::kmap::KMap;
use matrix_sdk_base::required_states::{RequestedRequiredStates, SyncV5Request};

fn pair(a: &str, b: &str) -> (String, String) {
    (a.to_owned(), b.to_owned())
}

#[test]
fn test_requested_required_states() {
    let room_id_0 = "!r0".to_owned();
    let room_id_1 = "!r1".to_owned();

    let mut for_rooms: KMap<String, Vec<(String, String)>> = KMap::new();
    for_rooms.insert(
        room_id_0.clone(),
        vec![pair("m.room.member", "foo"), pair("m.room.encryption", "")],
    );

    let requested_required_states =
        RequestedRequiredStates::new(vec![pair("m.room.avatar", "")], for_rooms);

    // A special set of state events exists for `room_id_0`.
    assert_eq!(
        requested_required_states.for_room(&room_id_0),
        &[pair("m.room.member", "foo"), pair("m.room.encryption", "")]
    );

    // No special list for `room_id_1`, it should return the defaults.
    assert_eq!(
        requested_required_states.for_room(&room_id_1),
        &[pair("m.room.avatar", "")]
    );
}

#[test]
fn test_requested_required_states_from_sync_v5_request() {
    let room_id_0 = "!r0".to_owned();
    let room_id_1 = "!r1".to_owned();

    // Empty request.
    let mut request = SyncV5Request { lists: vec![], room_subscriptions: vec![] };

    {
        let requested_required_states = request.requested_required_states();

        assert!(requested_required_states.default.is_empty());
        assert!(requested_required_states.for_rooms.entries.is_empty());
    }

    // One list.
    request.lists.push((
        "foo".to_owned(),
        vec![pair("m.room.avatar", ""), pair("m.room.encryption", "")],
    ));

    {
        let requested_required_states = request.requested_required_states();

        assert_eq!(
            requested_required_states.default,
            &[pair("m.room.avatar", ""), pair("m.room.encryption", "")]
        );
        assert!(requested_required_states.for_rooms.entries.is_empty());
    }

    // Two lists.
    request.lists.push((
        "bar".to_owned(),
        vec![pair("m.room.encryption", ""), pair("m.room.name", "")],
    ));

    {
        let requested_required_states = request.requested_required_states();

        // Union of the state events.
        assert_eq!(
            requested_required_states.default,
            &[
                pair("m.room.avatar", ""),
                pair("m.room.encryption", ""),
                pair("m.room.name", ""),
            ]
        );
        assert!(requested_required_states.for_rooms.entries.is_empty());
    }

    // One room subscription.
    request.room_subscriptions.push((
        room_id_0.clone(),
        vec![pair("m.room.join_rules", ""), pair("m.room.encryption", "")],
    ));

    {
        let requested_required_states = request.requested_required_states();

        // Union of state events, all in `default`, still nothing per room.
        assert_eq!(
            requested_required_states.default,
            &[
                pair("m.room.avatar", ""),
                pair("m.room.encryption", ""),
                pair("m.room.join_rules", ""),
                pair("m.room.name", ""),
            ]
        );
        assert!(requested_required_states.for_rooms.entries.is_empty());
    }

    // Two room subscriptions.
    request.room_subscriptions.push((
        room_id_1.clone(),
        vec![pair("m.room.name", ""), pair("m.room.topic", "")],
    ));

    {
        let requested_required_states = request.requested_required_states();

        assert_eq!(
            requested_required_states.default,
            &[
                pair("m.room.avatar", ""),
                pair("m.room.encryption", ""),
                pair("m.room.join_rules", ""),
                pair("m.room.name", ""),
                pair("m.room.topic", ""),
            ]
        );
    }
}
