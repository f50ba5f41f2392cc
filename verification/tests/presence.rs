use tts_bot::connection::{
    check_is_kick_event, find_self_and_target, KickEvent, MoveCommand, PresenceTracker, Roster,
    RosterEntry, RosterEvent,
};

fn entry(client: u64, channel: u64, database_id: u64) -> RosterEntry {
    RosterEntry { client, channel, database_id }
}

#[test]
fn removal_of_self_is_server_kick() {
    let events = vec![RosterEvent::ClientRemoved { client: 10 }];
    assert_eq!(check_is_kick_event(10, &events), KickEvent::Server);
}

#[test]
fn removal_of_other_resets() {
    let events = vec![RosterEvent::ClientRemoved { client: 11 }];
    assert_eq!(check_is_kick_event(10, &events), KickEvent::Reset);
}

#[test]
fn channel_change_on_self_with_invoker_is_channel_kick() {
    let events = vec![
        RosterEvent::Other,
        RosterEvent::ChannelChanged { client: 10, has_invoker: true },
    ];
    assert_eq!(check_is_kick_event(10, &events), KickEvent::Channel);
}

#[test]
fn channel_change_without_invoker_resets() {
    let events = vec![RosterEvent::ChannelChanged { client: 10, has_invoker: false }];
    assert_eq!(check_is_kick_event(10, &events), KickEvent::Reset);
}

#[test]
fn unrelated_churn_resets() {
    let events = vec![
        RosterEvent::Other,
        RosterEvent::ChannelChanged { client: 99, has_invoker: true },
    ];
    assert_eq!(check_is_kick_event(10, &events), KickEvent::Reset);
    assert_eq!(check_is_kick_event(10, &Vec::new()), KickEvent::Reset);
}

#[test]
fn find_uses_cached_volatile_id_first() {
    let roster = Roster {
        own_client: 1,
        clients: vec![entry(1, 5, 100), entry(2, 7, 200)],
    };
    let d = find_self_and_target(Some(5), &roster, Some(2), Some(999)).unwrap();
    assert_eq!(d.found_client, 2);
    assert_eq!(d.channel, 7);
    assert_eq!(d.command, MoveCommand { client: 1, channel: 7 });
}

#[test]
fn find_needs_no_move_when_channels_match() {
    let roster = Roster {
        own_client: 1,
        clients: vec![entry(1, 7, 100), entry(2, 7, 200)],
    };
    assert!(find_self_and_target(Some(7), &roster, Some(2), Some(200)).is_none());
}

#[test]
fn find_scans_by_persistent_identity() {
    let roster = Roster {
        own_client: 1,
        clients: vec![entry(1, 5, 100), entry(9, 8, 200)],
    };
    // the cached volatile id 2 is stale: the scan finds database id 200.
    let d = find_self_and_target(Some(5), &roster, Some(2), Some(200)).unwrap();
    assert_eq!(d.found_client, 9);
    assert_eq!(d.channel, 8);
}

#[test]
fn find_reads_own_channel_from_roster_when_uncached() {
    let roster = Roster {
        own_client: 1,
        clients: vec![entry(1, 5, 100), entry(2, 6, 200)],
    };
    let d = find_self_and_target(None, &roster, None, Some(200)).unwrap();
    assert_eq!(d.channel, 6);
}

#[test]
fn find_gives_up_without_target_or_match() {
    let roster = Roster { own_client: 1, clients: vec![entry(1, 5, 100)] };
    assert!(find_self_and_target(Some(5), &roster, None, None).is_none());
    assert!(find_self_and_target(Some(5), &roster, None, Some(424242)).is_none());
    let empty = Roster { own_client: 1, clients: Vec::new() };
    assert!(find_self_and_target(Some(5), &empty, None, Some(200)).is_none());
}

#[test]
fn tracker_reacquires_after_volatile_id_change() {
    let mut tracker = PresenceTracker::new(Some(200));

    // first evaluation: the target's volatile id is 2, in channel 7.
    let roster1 = Roster {
        own_client: 1,
        clients: vec![entry(1, 5, 100), entry(2, 7, 200)],
    };
    let cmd = tracker.evaluate(&roster1).unwrap();
    assert_eq!(cmd, MoveCommand { client: 1, channel: 7 });
    assert_eq!(tracker.last_known_transient_id, Some(2));
    assert_eq!(tracker.current_channel, Some(7));

    // the target reconnects: same persistent identity 200, new volatile id
    // 9, new channel 8. One notify trigger re-acquires it.
    tracker.on_roster_notify();
    let roster2 = Roster {
        own_client: 1,
        clients: vec![entry(1, 7, 100), entry(9, 8, 200)],
    };
    let cmd = tracker.evaluate(&roster2).unwrap();
    assert_eq!(cmd, MoveCommand { client: 1, channel: 8 });
    assert_eq!(tracker.last_known_transient_id, Some(9));
    assert_eq!(tracker.current_channel, Some(8));
}

#[test]
fn tracker_waits_for_a_trigger() {
    let mut tracker = PresenceTracker::new(Some(200));
    let roster = Roster {
        own_client: 1,
        clients: vec![entry(1, 5, 100), entry(2, 7, 200)],
    };
    assert!(tracker.evaluate(&roster).is_some());
    // no new trigger: nothing to do.
    assert!(tracker.evaluate(&roster).is_none());
    tracker.on_roster_notify();
    // target still where we moved: nothing to do either.
    let settled = Roster {
        own_client: 1,
        clients: vec![entry(1, 7, 100), entry(2, 7, 200)],
    };
    assert!(tracker.evaluate(&settled).is_none());
}

#[test]
fn untracked_tracker_never_moves() {
    let mut tracker = PresenceTracker::new(None);
    let roster = Roster { own_client: 1, clients: vec![entry(1, 5, 100)] };
    assert!(tracker.evaluate(&roster).is_none());
}

#[test]
fn timer_tick_discards_cached_channel() {
    let mut tracker = PresenceTracker::new(Some(200));
    let roster = Roster {
        own_client: 1,
        clients: vec![entry(1, 5, 100), entry(2, 7, 200)],
    };
    tracker.evaluate(&roster).unwrap();
    tracker.on_timer_tick();
    assert_eq!(tracker.current_channel, None);
    assert!(tracker.needs_refresh);
}

#[test]
fn kick_classification_drives_tracker() {
    let mut tracker = PresenceTracker::new(Some(200));
    assert!(!tracker.on_kick(KickEvent::Reset));
    assert!(!tracker.on_kick(KickEvent::Channel));
    assert_eq!(tracker.current_channel, None);
    assert!(tracker.needs_refresh);
    assert!(tracker.on_kick(KickEvent::Server));
}
