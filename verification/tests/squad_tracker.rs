use squad_ready::settings::Settings;
use squad_ready::squad_tracker::{
    Notification, RecordingNotifier, SquadTracker, UserRole, UserUpdate,
};

fn user(name: &str, ready: bool, role: UserRole, subgroup: u8) -> UserUpdate {
    UserUpdate {
        account_name: Some(name.to_string()),
        ready_status: ready,
        role,
        subgroup,
    }
}

fn new_tracker() -> SquadTracker<RecordingNotifier> {
    SquadTracker::new()
}

#[test]
fn test_ready_check_starts_when_leader_readies() {
    let mut tracker = new_tracker();
    let settings = Settings::default();

    let users = vec![user(":Leader.1234", false, UserRole::SquadLeader, 1)];

    // Initial state
    tracker.update_users(&users, "Self.5678", &settings, 0);
    assert_eq!(tracker.notifier.ready_check_plays(), 0);

    // Leader readies up
    let users = vec![user(":Leader.1234", true, UserRole::SquadLeader, 1)];
    tracker.update_users(&users, "Self.5678", &settings, 1);

    assert_eq!(tracker.notifier.ready_check_plays(), 1);
    assert!(tracker.in_ready_check);
}

#[test]
fn test_ready_check_completes_when_everyone_readies() {
    let mut tracker = new_tracker();
    let settings = Settings::default();

    // 1. Leader starts ready check
    let users = vec![
        user(":Leader.1234", false, UserRole::SquadLeader, 1),
        user(":Member.1", false, UserRole::Member, 1),
    ];
    tracker.update_users(&users, "Leader.1234", &settings, 0);

    let users = vec![user(":Leader.1234", true, UserRole::SquadLeader, 1)];
    tracker.update_users(&users, "Leader.1234", &settings, 1);
    assert!(tracker.in_ready_check);

    // 2. Member readies up
    let users = vec![user(":Member.1", true, UserRole::Member, 1)];
    tracker.update_users(&users, "Leader.1234", &settings, 2);

    assert_eq!(tracker.notifier.squad_ready_plays(), 1);
    assert!(!tracker.in_ready_check);
}

#[test]
fn test_nag_logic() {
    let mut tracker = new_tracker();
    let mut settings = Settings::default();
    settings.ready_check_nag = true;
    settings.ready_check_nag_interval_millis = 0; // Instant nag for testing

    // Start ready check: the leader is sighted not ready, then readies up.
    let users = vec![user(":Leader.1234", false, UserRole::SquadLeader, 1)];
    tracker.update_users(&users, "Self.5678", &settings, 0);
    let users = vec![user(":Leader.1234", true, UserRole::SquadLeader, 1)];
    tracker.update_users(&users, "Self.5678", &settings, 1);

    // Initial start calls: 1 flash, 1 ready check play
    let initial_plays = tracker.notifier.ready_check_plays();
    assert!(initial_plays >= 1);

    // Tick should trigger nag
    tracker.tick(&settings, 2);
    assert_eq!(tracker.notifier.ready_check_plays(), initial_plays + 1);
}

#[test]
fn test_self_leaving_squad_resets_tracker() {
    let mut tracker = new_tracker();
    let settings = Settings::default();

    // The leader is sighted not ready, then readies up: check starts.
    tracker.update_users(
        &vec![user(":Leader.1234", false, UserRole::SquadLeader, 1)],
        "Self.5678",
        &settings,
        0,
    );
    tracker.update_users(
        &vec![user(":Leader.1234", true, UserRole::SquadLeader, 1)],
        "Self.5678",
        &settings,
        1,
    );
    assert!(tracker.in_ready_check);

    // Self leaves (role becomes None or removed)
    tracker.update_users(
        &vec![user(":Self.5678", false, UserRole::NoRole, 0)],
        "Self.5678",
        &settings,
        2,
    );

    assert!(!tracker.in_ready_check);
    assert!(tracker.cached_players.is_empty());
}

#[test]
fn test_squad_ready_not_fired_without_active_ready_check() {
    let mut tracker = new_tracker();
    let settings = Settings::default();

    // 1. Initialize squad with leader (not readied) and a member (not readied)
    let users = vec![
        user(":Leader.1234", false, UserRole::SquadLeader, 1),
        user(":Member.1", false, UserRole::Member, 1),
    ];
    tracker.update_users(&users, "Self.5678", &settings, 0);
    assert!(!tracker.in_ready_check);

    // 2. Member readies up without an active ready check which should only happen if we desynced
    let users = vec![user(":Member.1", true, UserRole::Member, 1)];
    tracker.update_users(&users, "Self.5678", &settings, 1);

    // Squad ready should NOT have been played since no ready check is active
    assert_eq!(tracker.notifier.squad_ready_plays(), 0);
    assert!(!tracker.in_ready_check);
}

#[test]
fn no_check_when_no_leader_ever_readies() {
    let mut tracker = new_tracker();
    let settings = Settings::default();

    let users = vec![
        user(":Leader.1234", false, UserRole::SquadLeader, 1),
        user(":A.1", false, UserRole::Member, 1),
        user(":B.2", true, UserRole::Member, 2),
        user(":A.1", true, UserRole::Member, 1),
        user(":C.3", true, UserRole::Lieutenant, 1),
        user(":B.2", false, UserRole::Member, 2),
    ];
    tracker.update_users(&users, "A.1", &settings, 0);

    assert!(!tracker.in_ready_check);
    assert_eq!(tracker.notifier.squad_ready_plays(), 0);
    assert_eq!(tracker.notifier.ready_check_plays(), 0);
    assert_eq!(tracker.notifier.flash_calls(), 0);
}

#[test]
fn start_fires_once_despite_repeated_not_ready_updates() {
    let mut tracker = new_tracker();
    let settings = Settings::default();

    for now in 0..4 {
        tracker.update_users(
            &vec![user(":Leader.1234", false, UserRole::SquadLeader, 1)],
            "Self.5678",
            &settings,
            now,
        );
    }
    assert_eq!(tracker.notifier.ready_check_plays(), 0);

    tracker.update_users(
        &vec![user(":Leader.1234", true, UserRole::SquadLeader, 1)],
        "Self.5678",
        &settings,
        5,
    );
    assert_eq!(tracker.notifier.ready_check_plays(), 1);
    assert!(tracker.in_ready_check);
}

#[test]
fn leader_ready_event_applied_twice_starts_once() {
    let mut tracker = new_tracker();
    let settings = Settings::default();

    tracker.update_users(
        &vec![user(":Leader.1234", false, UserRole::SquadLeader, 1)],
        "Self.5678",
        &settings,
        0,
    );
    // The same "leader is ready" event twice in a row.
    tracker.update_users(
        &vec![
            user(":Leader.1234", true, UserRole::SquadLeader, 1),
            user(":Leader.1234", true, UserRole::SquadLeader, 1),
        ],
        "Self.5678",
        &settings,
        1,
    );

    assert_eq!(tracker.notifier.ready_check_plays(), 1);
    assert!(tracker.in_ready_check);
}

#[test]
fn invited_and_applied_do_not_block_completion() {
    let mut tracker = new_tracker();
    let settings = Settings::default();

    let users = vec![
        user(":Leader.1234", false, UserRole::SquadLeader, 1),
        user(":Member.1", false, UserRole::Member, 1),
        user(":Guest.9", false, UserRole::Invited, 0),
        user(":Hopeful.7", false, UserRole::Applied, 0),
    ];
    tracker.update_users(&users, "Leader.1234", &settings, 0);
    tracker.update_users(
        &vec![user(":Leader.1234", true, UserRole::SquadLeader, 1)],
        "Leader.1234",
        &settings,
        1,
    );
    assert!(tracker.in_ready_check);

    // Everyone who counts is ready; the invited and applied users are not.
    tracker.update_users(
        &vec![user(":Member.1", true, UserRole::Member, 1)],
        "Leader.1234",
        &settings,
        2,
    );
    assert_eq!(tracker.notifier.squad_ready_plays(), 1);
    assert!(!tracker.in_ready_check);
}

#[test]
fn leader_unready_aborts_check_silently() {
    let mut tracker = new_tracker();
    let settings = Settings::default();

    tracker.update_users(
        &vec![user(":Leader.1234", false, UserRole::SquadLeader, 1)],
        "Self.5678",
        &settings,
        0,
    );
    tracker.update_users(
        &vec![user(":Leader.1234", true, UserRole::SquadLeader, 1)],
        "Self.5678",
        &settings,
        1,
    );
    assert!(tracker.in_ready_check);
    let flashes = tracker.notifier.flash_calls();

    tracker.update_users(
        &vec![user(":Leader.1234", false, UserRole::SquadLeader, 1)],
        "Self.5678",
        &settings,
        2,
    );
    assert!(!tracker.in_ready_check);
    assert_eq!(tracker.notifier.squad_ready_plays(), 0);
    assert_eq!(tracker.notifier.flash_calls(), flashes);
}

#[test]
fn tick_stops_nagging_once_self_readies() {
    let mut tracker = new_tracker();
    let mut settings = Settings::default();
    settings.ready_check_nag = true;
    settings.ready_check_nag_interval_millis = 0;

    tracker.update_users(
        &vec![user(":Leader.1234", false, UserRole::SquadLeader, 1)],
        "Self.5678",
        &settings,
        0,
    );
    tracker.update_users(
        &vec![user(":Leader.1234", true, UserRole::SquadLeader, 1)],
        "Self.5678",
        &settings,
        1,
    );
    tracker.tick(&settings, 2);
    let plays = tracker.notifier.ready_check_plays();
    assert!(plays >= 2);

    // Self readies up: no further nags.
    tracker.update_users(
        &vec![user(":Self.5678", true, UserRole::Member, 1)],
        "Self.5678",
        &settings,
        3,
    );
    tracker.tick(&settings, 4);
    tracker.tick(&settings, 1000);
    assert_eq!(tracker.notifier.ready_check_plays(), plays);
}

#[test]
fn tick_respects_future_nag_deadline() {
    let mut tracker = new_tracker();
    let mut settings = Settings::default();
    settings.ready_check_nag = true;
    settings.ready_check_nag_interval_millis = 5000;

    tracker.update_users(
        &vec![user(":Leader.1234", false, UserRole::SquadLeader, 1)],
        "Self.5678",
        &settings,
        0,
    );
    tracker.update_users(
        &vec![user(":Leader.1234", true, UserRole::SquadLeader, 1)],
        "Self.5678",
        &settings,
        1000,
    );
    let plays = tracker.notifier.ready_check_plays();

    // The deadline is 6000; earlier ticks stay silent.
    tracker.tick(&settings, 2000);
    tracker.tick(&settings, 5999);
    assert_eq!(tracker.notifier.ready_check_plays(), plays);

    tracker.tick(&settings, 6000);
    assert_eq!(tracker.notifier.ready_check_plays(), plays + 1);
}

#[test]
fn negative_nag_interval_counts_as_zero() {
    let mut tracker = new_tracker();
    let mut settings = Settings::default();
    settings.ready_check_nag = true;
    settings.ready_check_nag_interval_millis = -5;

    tracker.update_users(
        &vec![user(":Leader.1234", false, UserRole::SquadLeader, 1)],
        "Self.5678",
        &settings,
        0,
    );
    tracker.update_users(
        &vec![user(":Leader.1234", true, UserRole::SquadLeader, 1)],
        "Self.5678",
        &settings,
        10,
    );
    let plays = tracker.notifier.ready_check_plays();

    // The clamped deadline is 10, so a tick at 10 nags already.
    tracker.tick(&settings, 10);
    assert_eq!(tracker.notifier.ready_check_plays(), plays + 1);
}

#[test]
fn tick_without_nag_enabled_is_silent() {
    let mut tracker = new_tracker();
    let settings = Settings::default();

    tracker.update_users(
        &vec![user(":Leader.1234", false, UserRole::SquadLeader, 1)],
        "Self.5678",
        &settings,
        0,
    );
    tracker.update_users(
        &vec![user(":Leader.1234", true, UserRole::SquadLeader, 1)],
        "Self.5678",
        &settings,
        1,
    );
    let plays = tracker.notifier.ready_check_plays();

    tracker.tick(&settings, 100_000);
    assert_eq!(tracker.notifier.ready_check_plays(), plays);
}

#[test]
fn malformed_events_are_skipped() {
    let mut tracker = new_tracker();
    let settings = Settings::default();

    let users = vec![UserUpdate {
        account_name: None,
        ready_status: true,
        role: UserRole::SquadLeader,
        subgroup: 1,
    }];
    tracker.update_users(&users, "Self.5678", &settings, 0);
    tracker.update_users(&users, "Self.5678", &settings, 1);

    assert!(!tracker.in_ready_check);
    assert!(tracker.cached_players.is_empty());
    assert_eq!(tracker.notifier.flash_calls(), 0);
}

#[test]
fn removal_of_other_member_keeps_check_running() {
    let mut tracker = new_tracker();
    let settings = Settings::default();

    tracker.update_users(
        &vec![
            user(":Leader.1234", false, UserRole::SquadLeader, 1),
            user(":Member.1", false, UserRole::Member, 1),
        ],
        "Self.5678",
        &settings,
        0,
    );
    tracker.update_users(
        &vec![user(":Leader.1234", true, UserRole::SquadLeader, 1)],
        "Self.5678",
        &settings,
        1,
    );
    assert!(tracker.in_ready_check);

    tracker.update_users(
        &vec![user(":Member.1", false, UserRole::NoRole, 0)],
        "Self.5678",
        &settings,
        2,
    );
    assert!(tracker.in_ready_check);
    assert_eq!(tracker.cached_players.len(), 1);
}

#[test]
fn recording_notifier_hands_out_calls_in_order() {
    let mut tracker = new_tracker();
    let settings = Settings::default();

    tracker.update_users(
        &vec![user(":Leader.1234", false, UserRole::SquadLeader, 1)],
        "Self.5678",
        &settings,
        0,
    );
    tracker.update_users(
        &vec![user(":Leader.1234", true, UserRole::SquadLeader, 1)],
        "Self.5678",
        &settings,
        1,
    );

    let calls = tracker.notifier.take_calls();
    assert_eq!(
        calls,
        vec![Notification::FlashWindow, Notification::PlayReadyCheck]
    );
    assert_eq!(tracker.notifier.flash_calls(), 0);
    assert_eq!(tracker.notifier.ready_check_plays(), 0);
}

#[test]
fn debug_info_reports_times_and_players() {
    let mut tracker = new_tracker();
    let mut settings = Settings::default();
    settings.ready_check_nag = true;
    settings.ready_check_nag_interval_millis = 5000;

    tracker.update_users(
        &vec![user(":Leader.1234", false, UserRole::SquadLeader, 2)],
        "Self.5678",
        &settings,
        0,
    );
    tracker.update_users(
        &vec![user(":Leader.1234", true, UserRole::SquadLeader, 2)],
        "Self.5678",
        &settings,
        100,
    );

    let info = tracker.get_debug_info(1100);
    assert!(info.in_ready_check);
    assert!(!info.self_readied);
    assert_eq!(info.ready_check_elapsed_millis, Some(1000));
    assert_eq!(info.time_until_nag_millis, Some(4000));
    assert_eq!(info.cached_players.len(), 1);
    let (name, row) = &info.cached_players[0];
    assert_eq!(name, "Leader.1234");
    assert_eq!(row.role, "SquadLeader");
    assert_eq!(row.subgroup, 2);
    assert!(row.ready_status);
}
