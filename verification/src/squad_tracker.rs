//! The squad ready-check state tracker.
//!
//! [`SquadTracker`] consumes per-user update events pushed by the host,
//! maintains a cache of the current squad members, infers when a ready
//! check starts, is aborted, or completes, and drives a periodic nag
//! reminder. Every state change and every notifier call is pinned down by
//! the functional model in [`step_user`], [`step_users`] and [`tick_model`].

use vstd::prelude::*;

use crate::player_cache::{
    kv_map, lemma_kv_map_absent, lemma_kv_map_contains, lemma_kv_map_index, lemma_kv_map_push,
    lemma_kv_map_remove, lemma_unique_keys_push, unique_keys,
};
use crate::settings::Settings;
use crate::text::{str_eq, strip_account_prefix, stripped_name};

verus! {

/// Membership/authority role of a squad member, as reported by the host.
/// `None` is a removal signal, not a state the tracker stores.
#[derive(Clone, Copy, Debug, PartialEq, Eq, Structural)]
pub enum UserRole {
    SquadLeader,
    Lieutenant,
    Member,
    Invited,
    Applied,
    NoRole,
    Invalid,
}

/// One user-update event from the host's squad-roster push. An absent
/// account name marks a malformed event, which the tracker skips.
#[derive(Clone, Debug)]
pub struct UserUpdate {
    pub account_name: Option<String>,
    pub ready_status: bool,
    pub role: UserRole,
    pub subgroup: u8,
}

/// What the tracker remembers about one squad member.
#[derive(Clone, Copy, Debug, PartialEq, Eq, Structural)]
pub struct CachedUserInfo {
    pub role: UserRole,
    pub subgroup: u8,
    pub ready_status: bool,
}

/// One notifier invocation.
#[derive(Clone, Copy, Debug, PartialEq, Eq, Structural)]
pub enum Notification {
    FlashWindow,
    PlayReadyCheck,
    PlaySquadReady,
}

/// The notification capability the tracker drives. An implementation
/// exposes the sequence of calls made so far as `history()`, and each
/// operation appends exactly one entry to it; whether anything audible or
/// visible happens is the implementation's business, and the tracker stays
/// correct when every call is a no-op.
pub trait SquadNotifier: Sized {
    spec fn history(&self) -> Seq<Notification>;

    fn flash_window(&mut self, settings: &Settings)
        ensures
            final(self).history() == old(self).history().push(Notification::FlashWindow),
    ;

    fn play_ready_check(&mut self, settings: &Settings)
        ensures
            final(self).history() == old(self).history().push(Notification::PlayReadyCheck),
    ;

    fn play_squad_ready(&mut self, settings: &Settings)
        ensures
            final(self).history() == old(self).history().push(Notification::PlaySquadReady),
    ;
}

/// How many entries of `calls` are of the given kind.
pub open spec fn count_matching(calls: Seq<Notification>, kind: Notification) -> nat
    decreases calls.len(),
{
    if calls.len() == 0 {
        0
    } else {
        count_matching(calls.drop_last(), kind) + if calls.last() == kind {
            1nat
        } else {
            0nat
        }
    }
}

/// A prefix of a call sequence holds at most as many matches as entries.
pub proof fn lemma_count_matching_le_len(calls: Seq<Notification>, kind: Notification)
    ensures
        count_matching(calls, kind) <= calls.len(),
    decreases calls.len(),
{
    if calls.len() > 0 {
        lemma_count_matching_le_len(calls.drop_last(), kind);
    }
}

/// A notifier that only records its calls. It serves both as the test
/// double for the tracker and as the decision buffer of the host glue,
/// which drains the recorded calls and performs the real playback and
/// window flashing.
pub struct RecordingNotifier {
    pub calls: Vec<Notification>,
}

impl RecordingNotifier {
    /// A notifier with an empty call history.
    pub fn new() -> (notifier: RecordingNotifier)
        ensures
            notifier.history() == Seq::<Notification>::empty(),
    {
        RecordingNotifier { calls: Vec::new() }
    }

    /// Number of recorded calls of the given kind.
    pub fn count_of(&self, kind: Notification) -> (count: usize)
        ensures
            count == count_matching(self.history(), kind),
    {
        let mut count: usize = 0;
        let mut i: usize = 0;
        let n = self.calls.len();
        while i < n
            invariant
                i <= n,
                n == self.calls@.len(),
                count == count_matching(self.calls@.take(i as int), kind),
            decreases n - i,
        {
            proof {
                lemma_count_matching_le_len(self.calls@.take(i as int), kind);
                assert(self.calls@.take(i + 1).drop_last() =~= self.calls@.take(i as int));
                assert(self.calls@.take(i + 1).last() == self.calls@[i as int]);
            }
            if self.calls[i] == kind {
                count += 1;
            }
            i += 1;
        }
        proof {
            assert(self.calls@.take(n as int) =~= self.calls@);
        }
        count
    }

    /// Number of recorded ready-check sound plays.
    pub fn ready_check_plays(&self) -> (count: usize)
        ensures
            count == count_matching(self.history(), Notification::PlayReadyCheck),
    {
        self.count_of(Notification::PlayReadyCheck)
    }

    /// Number of recorded squad-ready sound plays.
    pub fn squad_ready_plays(&self) -> (count: usize)
        ensures
            count == count_matching(self.history(), Notification::PlaySquadReady),
    {
        self.count_of(Notification::PlaySquadReady)
    }

    /// Number of recorded window flashes.
    pub fn flash_calls(&self) -> (count: usize)
        ensures
            count == count_matching(self.history(), Notification::FlashWindow),
    {
        self.count_of(Notification::FlashWindow)
    }

    /// Hand out the calls recorded so far and forget them.
    pub fn take_calls(&mut self) -> (calls: Vec<Notification>)
        ensures
            calls@ == old(self).history(),
            final(self).history() == Seq::<Notification>::empty(),
    {
        let mut taken: Vec<Notification> = Vec::new();
        let mut i: usize = 0;
        let n = self.calls.len();
        while i < n
            invariant
                i <= n,
                n == self.calls@.len(),
                self.calls@ == old(self).calls@,
                taken@ == self.calls@.take(i as int),
            decreases n - i,
        {
            proof {
                assert(self.calls@.take(i + 1) =~= self.calls@.take(i as int).push(
                    self.calls@[i as int],
                ));
            }
            taken.push(self.calls[i]);
            i += 1;
        }
        self.calls.clear();
        proof {
            assert(old(self).calls@.take(n as int) =~= old(self).calls@);
        }
        taken
    }
}

impl SquadNotifier for RecordingNotifier {
    open spec fn history(&self) -> Seq<Notification> {
        self.calls@
    }

    fn flash_window(&mut self, _settings: &Settings) {
        self.calls.push(Notification::FlashWindow);
    }

    fn play_ready_check(&mut self, _settings: &Settings) {
        self.calls.push(Notification::PlayReadyCheck);
    }

    fn play_squad_ready(&mut self, _settings: &Settings) {
        self.calls.push(Notification::PlaySquadReady);
    }
}

/// Mathematical state of the tracker: the member cache as a finite map
/// keyed by account-name characters, together with the lifecycle flags.
#[verifier::ext_equal]
pub struct TrackerModel {
    pub players: Map<Seq<char>, CachedUserInfo>,
    pub in_ready_check: bool,
    pub self_readied: bool,
    pub ready_check_start_time: Option<u64>,
    pub ready_check_nag_time: Option<u64>,
}

/// Whether a cached member must be ready for the check to complete.
/// Invited, applied and invalid entries neither block completion nor are
/// required to be ready.
pub open spec fn counts_toward_ready(info: CachedUserInfo) -> bool {
    ||| info.role == UserRole::SquadLeader
    ||| info.role == UserRole::Lieutenant
    ||| info.role == UserRole::Member
}

/// All cached members whose role counts toward the check are ready.
pub open spec fn all_players_ready(players: Map<Seq<char>, CachedUserInfo>) -> bool {
    forall|name: Seq<char>|
        #[trigger] players.contains_key(name) && counts_toward_ready(players[name])
            ==> players[name].ready_status
}

/// The nag interval with negative values clamped to zero.
pub open spec fn clamped_interval(interval_millis: i64) -> int {
    if interval_millis < 0 {
        0
    } else {
        interval_millis as int
    }
}

/// The next nag deadline: `now` plus the clamped interval, saturating at
/// the top of the clock's range.
pub open spec fn nag_deadline(now: u64, interval_millis: i64) -> u64 {
    if now + clamped_interval(interval_millis) > u64::MAX {
        u64::MAX
    } else {
        (now + clamped_interval(interval_millis)) as u64
    }
}

/// State after a ready check starts: the lifecycle flag is raised and the
/// start and nag timestamps are stamped from `now`.
pub open spec fn model_after_start(m: TrackerModel, settings: Settings, now: u64) -> TrackerModel {
    TrackerModel {
        in_ready_check: true,
        ready_check_start_time: Some(now),
        ready_check_nag_time: Some(
            nag_deadline(now, settings.ready_check_nag_interval_millis),
        ),
        ..m
    }
}

/// State after a ready check ends (aborted or completed): the lifecycle
/// flag and the start timestamp are cleared.
pub open spec fn model_after_end(m: TrackerModel) -> TrackerModel {
    TrackerModel { in_ready_check: false, ready_check_start_time: None, ..m }
}

/// State after a ready check completes: the nag deadline is cleared on top
/// of the end-of-check clearing.
pub open spec fn model_after_complete(m: TrackerModel) -> TrackerModel {
    model_after_end(TrackerModel { ready_check_nag_time: None, ..m })
}

/// Notifier calls made when a ready check starts, in order.
pub open spec fn started_notices() -> Seq<Notification> {
    seq![Notification::FlashWindow, Notification::PlayReadyCheck]
}

/// Notifier calls made when a ready check completes, in order.
pub open spec fn completed_notices() -> Seq<Notification> {
    seq![Notification::FlashWindow, Notification::PlaySquadReady]
}

/// The tracker's reaction to a single user-update event: the new state and
/// the notifier calls made, in order.
pub open spec fn step_user(
    m: TrackerModel,
    user: UserUpdate,
    self_account_name: Seq<char>,
    settings: Settings,
    now: u64,
) -> (TrackerModel, Seq<Notification>) {
    match user.account_name {
        Option::None => (m, Seq::empty()),
        Option::Some(raw) => {
            let name = stripped_name(raw@);
            if user.role != UserRole::NoRole {
                let noted = if name == self_account_name {
                    TrackerModel { self_readied: user.ready_status, ..m }
                } else {
                    m
                };
                let updated = TrackerModel {
                    players: noted.players.insert(
                        name,
                        CachedUserInfo {
                            role: user.role,
                            subgroup: user.subgroup,
                            ready_status: user.ready_status,
                        },
                    ),
                    ..noted
                };
                if !m.players.contains_key(name) {
                    // A first-ever sighting of a member never triggers a
                    // transition by itself.
                    (updated, Seq::empty())
                } else {
                    let previous = m.players[name];
                    if user.role == UserRole::SquadLeader {
                        if user.ready_status && !previous.ready_status {
                            (model_after_start(updated, settings, now), started_notices())
                        } else if !user.ready_status && previous.ready_status {
                            (model_after_end(updated), Seq::empty())
                        } else {
                            (updated, Seq::empty())
                        }
                    } else if updated.in_ready_check && all_players_ready(updated.players) {
                        (model_after_complete(updated), completed_notices())
                    } else {
                        (updated, Seq::empty())
                    }
                }
            } else {
                if name == self_account_name {
                    // Self left the squad: full reset, forcing end-of-check
                    // semantics whether or not a check was active.
                    (
                        TrackerModel {
                            players: Map::empty(),
                            self_readied: false,
                            in_ready_check: false,
                            ready_check_start_time: None,
                            ..m
                        },
                        Seq::empty(),
                    )
                } else {
                    (TrackerModel { players: m.players.remove(name), ..m }, Seq::empty())
                }
            }
        },
    }
}

/// The tracker's reaction to a batch of events, processed in delivery
/// order; the notifier calls of the individual steps are concatenated.
pub open spec fn step_users(
    m: TrackerModel,
    users: Seq<UserUpdate>,
    self_account_name: Seq<char>,
    settings: Settings,
    now: u64,
) -> (TrackerModel, Seq<Notification>)
    decreases users.len(),
{
    if users.len() == 0 {
        (m, Seq::empty())
    } else {
        let head = step_user(m, users.first(), self_account_name, settings, now);
        let rest = step_users(head.0, users.drop_first(), self_account_name, settings, now);
        (rest.0, head.1 + rest.1)
    }
}

/// Processing one more event at the end of a batch is one more step.
pub proof fn lemma_step_users_snoc(
    m: TrackerModel,
    users: Seq<UserUpdate>,
    user: UserUpdate,
    self_account_name: Seq<char>,
    settings: Settings,
    now: u64,
)
    ensures
        step_users(m, users.push(user), self_account_name, settings, now) == ({
            let upto = step_users(m, users, self_account_name, settings, now);
            let last = step_user(upto.0, user, self_account_name, settings, now);
            (last.0, upto.1 + last.1)
        }),
    decreases users.len(),
{
    let pushed = users.push(user);
    if users.len() == 0 {
        assert(pushed.first() == user);
        assert(pushed.drop_first() =~= Seq::<UserUpdate>::empty());
        let head = step_user(m, user, self_account_name, settings, now);
        assert(step_users(head.0, pushed.drop_first(), self_account_name, settings, now) == (
            head.0,
            Seq::<Notification>::empty(),
        ));
        assert(head.1 + Seq::<Notification>::empty() =~= head.1);
        assert(Seq::<Notification>::empty() + head.1 =~= head.1);
    } else {
        assert(pushed.first() == users.first());
        assert(pushed.drop_first() =~= users.drop_first().push(user));
        let head = step_user(m, users.first(), self_account_name, settings, now);
        lemma_step_users_snoc(
            head.0,
            users.drop_first(),
            user,
            self_account_name,
            settings,
            now,
        );
        let upto_rest = step_users(head.0, users.drop_first(), self_account_name, settings, now);
        let last = step_user(
            step_users(m, users, self_account_name, settings, now).0,
            user,
            self_account_name,
            settings,
            now,
        );
        assert(head.1 + (upto_rest.1 + last.1) =~= (head.1 + upto_rest.1) + last.1);
    }
}

/// The tracker's reaction to one polling tick: the new state and the
/// notifier calls made. A nag fires only while a check is active, the
/// local user has not readied, nagging is enabled, and the stamped
/// deadline (if any) has passed.
pub open spec fn tick_model(m: TrackerModel, settings: Settings, now: u64) -> (
    TrackerModel,
    Seq<Notification>,
) {
    if !m.in_ready_check {
        (m, Seq::empty())
    } else if m.self_readied {
        (m, Seq::empty())
    } else if !settings.ready_check_nag {
        (m, Seq::empty())
    } else if m.ready_check_nag_time is Some && now < m.ready_check_nag_time->0 {
        (m, Seq::empty())
    } else {
        (
            TrackerModel {
                ready_check_nag_time: Some(
                    nag_deadline(now, settings.ready_check_nag_interval_millis),
                ),
                ..m
            },
            started_notices(),
        )
    }
}

/// The squad ready-check state tracker. `update_users` consumes the
/// host's roster pushes, `tick` drives the nag reminder; both are pinned
/// to the functional model by their contracts.
pub struct SquadTracker<N: SquadNotifier> {
    pub cached_players: Vec<(String, CachedUserInfo)>,
    pub ready_check_start_time: Option<u64>,
    pub ready_check_nag_time: Option<u64>,
    pub in_ready_check: bool,
    pub self_readied: bool,
    pub notifier: N,
}

impl<N: SquadNotifier> View for SquadTracker<N> {
    type V = TrackerModel;

    open spec fn view(&self) -> TrackerModel {
        TrackerModel {
            players: kv_map(self.cached_players@),
            in_ready_check: self.in_ready_check,
            self_readied: self.self_readied,
            ready_check_start_time: self.ready_check_start_time,
            ready_check_nag_time: self.ready_check_nag_time,
        }
    }
}

impl<N: SquadNotifier> SquadTracker<N> {
    /// The member cache never holds two entries for the same account.
    pub open spec fn wf(&self) -> bool {
        unique_keys(self.cached_players@)
    }

    /// A fresh tracker around the given notifier: empty cache, no check
    /// active, nothing stamped.
    pub fn with_notifier(notifier: N) -> (tracker: SquadTracker<N>)
        ensures
            tracker.wf(),
            tracker@.players =~= Map::<Seq<char>, CachedUserInfo>::empty(),
            !tracker@.in_ready_check,
            !tracker@.self_readied,
            tracker@.ready_check_start_time is None,
            tracker@.ready_check_nag_time is None,
            tracker.notifier == notifier,
    {
        SquadTracker {
            cached_players: Vec::new(),
            ready_check_start_time: None,
            ready_check_nag_time: None,
            in_ready_check: false,
            self_readied: false,
            notifier,
        }
    }

    /// The index of the cache entry for `name`, if one exists.
    fn find_player(&self, name: &String) -> (position: Option<usize>)
        ensures
            match position {
                Some(i) => i < self.cached_players@.len() && self.cached_players@[i as int].0@
                    == name@,
                None => forall|j: int|
                    0 <= j < self.cached_players@.len() ==> (#[trigger] self.cached_players@[j]).0@
                        != name@,
            },
    {
        let mut i: usize = 0;
        let n = self.cached_players.len();
        while i < n
            invariant
                i <= n,
                n == self.cached_players@.len(),
                forall|j: int| 0 <= j < i ==> (#[trigger] self.cached_players@[j]).0@ != name@,
            decreases n - i,
        {
            if str_eq(self.cached_players[i].0.as_str(), name.as_str()) {
                return Some(i);
            }
            i += 1;
        }
        None
    }

    /// Whether every cached member whose role counts toward the check has
    /// readied up.
    fn all_players_readied(&self) -> (all_ready: bool)
        requires
            self.wf(),
        ensures
            all_ready == all_players_ready(self@.players),
    {
        let mut i: usize = 0;
        let n = self.cached_players.len();
        while i < n
            invariant
                i <= n,
                n == self.cached_players@.len(),
                self.wf(),
                forall|j: int|
                    0 <= j < i ==> (counts_toward_ready((#[trigger] self.cached_players@[j]).1)
                        ==> self.cached_players@[j].1.ready_status),
            decreases n - i,
        {
            let info = self.cached_players[i].1;
            let counts = info.role == UserRole::SquadLeader || info.role == UserRole::Lieutenant
                || info.role == UserRole::Member;
            if counts && !info.ready_status {
                proof {
                    lemma_kv_map_index(self.cached_players@, i as int);
                }
                return false;
            }
            i += 1;
        }
        proof {
            assert forall|nm: Seq<char>|
                #[trigger] self@.players.contains_key(nm) && counts_toward_ready(
                    self@.players[nm],
                ) implies self@.players[nm].ready_status by {
                lemma_kv_map_contains(self.cached_players@, nm);
                let j = choose|j: int|
                    0 <= j < self.cached_players@.len() && (#[trigger] self.cached_players@[j]).0@
                        == nm;
                lemma_kv_map_index(self.cached_players@, j);
            }
        }
        true
    }

    /// Raise the lifecycle flag, stamp the start and nag times from `now`,
    /// and notify: a ready check has started.
    fn ready_check_started(&mut self, settings: &Settings, now: u64)
        ensures
            final(self).cached_players == old(self).cached_players,
            final(self)@ == model_after_start(old(self)@, *settings, now),
            final(self).notifier.history() == old(self).notifier.history() + started_notices(),
    {
        self.in_ready_check = true;
        self.ready_check_start_time = Some(now);
        self.set_ready_check_nag_time(settings, now);
        self.notifier.flash_window(settings);
        self.notifier.play_ready_check(settings);
        proof {
            assert(self@ =~= model_after_start(old(self)@, *settings, now));
            assert(old(self).notifier.history().push(Notification::FlashWindow).push(
                Notification::PlayReadyCheck,
            ) =~= old(self).notifier.history() + started_notices());
        }
    }

    /// Clear the nag deadline, notify that the squad is ready, and end the
    /// check.
    fn ready_check_completed(&mut self, settings: &Settings)
        ensures
            final(self).cached_players == old(self).cached_players,
            final(self)@ == model_after_complete(old(self)@),
            final(self).notifier.history() == old(self).notifier.history() + completed_notices(),
    {
        self.ready_check_nag_time = None;
        self.notifier.flash_window(settings);
        self.notifier.play_squad_ready(settings);
        self.ready_check_ended();
        proof {
            assert(self@ =~= model_after_complete(old(self)@));
            assert(old(self).notifier.history().push(Notification::FlashWindow).push(
                Notification::PlaySquadReady,
            ) =~= old(self).notifier.history() + completed_notices());
        }
    }

    /// Lower the lifecycle flag and clear the start timestamp. No sound is
    /// played: an abort stays silent.
    fn ready_check_ended(&mut self)
        ensures
            final(self).cached_players == old(self).cached_players,
            final(self).notifier == old(self).notifier,
            final(self)@ == model_after_end(old(self)@),
    {
        self.in_ready_check = false;
        self.ready_check_start_time = None;
        proof {
            assert(self@ =~= model_after_end(old(self)@));
        }
    }

    /// Stamp the next nag deadline: `now` plus the clamped interval.
    fn set_ready_check_nag_time(&mut self, settings: &Settings, now: u64)
        ensures
            final(self).cached_players == old(self).cached_players,
            final(self).notifier == old(self).notifier,
            final(self)@ == (TrackerModel {
                ready_check_nag_time: Some(
                    nag_deadline(now, settings.ready_check_nag_interval_millis),
                ),
                ..old(self)@
            }),
    {
        let interval = settings.ready_check_nag_interval_millis;
        // Clamp to >= 0 so a negative interval cannot produce an invalid
        // deadline.
        let clamped: u64 = if interval < 0 {
            0
        } else {
            interval as u64
        };
        let deadline: u64 = if now > u64::MAX - clamped {
            u64::MAX
        } else {
            now + clamped
        };
        self.ready_check_nag_time = Some(deadline);
        proof {
            assert(deadline == nag_deadline(now, interval));
            assert(self@ =~= (TrackerModel {
                ready_check_nag_time: Some(
                    nag_deadline(now, settings.ready_check_nag_interval_millis),
                ),
                ..old(self)@
            }));
        }
    }

    /// Apply one user-update event, exactly as [`step_user`] describes.
    fn process_user(
        &mut self,
        user: &UserUpdate,
        self_account_name: &str,
        settings: &Settings,
        now: u64,
    )
        requires
            old(self).wf(),
        ensures
            final(self).wf(),
            ({
                let stepped = step_user(old(self)@, *user, self_account_name@, *settings, now);
                final(self)@ == stepped.0 && final(self).notifier.history() == old(
                    self,
                ).notifier.history() + stepped.1
            }),
    {
        let ghost m0 = old(self)@;
        let ghost stepped = step_user(m0, *user, self_account_name@, *settings, now);
        let raw = match &user.account_name {
            Some(r) => r,
            None => {
                proof {
                    assert(old(self).notifier.history() + Seq::<Notification>::empty() =~= old(
                        self,
                    ).notifier.history());
                }
                return ;
            },
        };
        let name = strip_account_prefix(raw.as_str());
        let is_self = str_eq(name.as_str(), self_account_name);
        let ghost name_view = name@;
        if user.role != UserRole::NoRole {
            // Add-or-update signal.
            if is_self {
                self.self_readied = user.ready_status;
            }
            let ghost noted = if name_view == self_account_name@ {
                TrackerModel { self_readied: user.ready_status, ..m0 }
            } else {
                m0
            };
            let position = self.find_player(&name);
            let previous: Option<CachedUserInfo> = match position {
                Some(i) => Some(self.cached_players[i].1),
                None => None,
            };
            proof {
                match position {
                    Some(i) => {
                        lemma_kv_map_index(self.cached_players@, i as int);
                    },
                    None => {
                        lemma_kv_map_absent(self.cached_players@, name_view);
                    },
                }
            }
            let info = CachedUserInfo {
                role: user.role,
                subgroup: user.subgroup,
                ready_status: user.ready_status,
            };
            let ghost updated = TrackerModel {
                players: noted.players.insert(name_view, info),
                ..noted
            };
            let ghost name_snap = name;
            match position {
                Some(i) => {
                    proof {
                        lemma_kv_map_remove(self.cached_players@, i as int);
                        let entries0 = self.cached_players@;
                        let entries1 = entries0.remove(i as int);
                        entries0.remove_ensures(i as int);
                        assert forall|j: int| 0 <= j < entries1.len() implies (
                        #[trigger] entries1[j]).0@ != name_view by {
                            if j < i {
                                assert(entries1[j] == entries0[j]);
                            } else {
                                assert(entries1[j] == entries0[j + 1]);
                            }
                        }
                        lemma_unique_keys_push(entries1, name_snap, info);
                        lemma_kv_map_push(entries1, name_snap, info);
                    }
                    self.cached_players.remove(i);
                    self.cached_players.push((name, info));
                    proof {
                        assert(kv_map(self.cached_players@) =~= m0.players.insert(
                            name_view,
                            info,
                        ));
                    }
                },
                None => {
                    proof {
                        lemma_unique_keys_push(self.cached_players@, name_snap, info);
                        lemma_kv_map_push(self.cached_players@, name_snap, info);
                    }
                    self.cached_players.push((name, info));
                },
            }
            proof {
                assert(self@ =~= updated);
            }
            match previous {
                None => {
                    proof {
                        assert(stepped.0 == updated && stepped.1 =~= Seq::<Notification>::empty());
                        assert(old(self).notifier.history() + Seq::<Notification>::empty() =~= old(
                            self,
                        ).notifier.history());
                    }
                },
                Some(prev) => {
                    if user.role == UserRole::SquadLeader {
                        if user.ready_status && !prev.ready_status {
                            // The squad leader has started a ready check.
                            self.ready_check_started(settings, now);
                        } else if !user.ready_status && prev.ready_status {
                            // The squad leader has aborted the ready check.
                            self.ready_check_ended();
                            proof {
                                assert(old(self).notifier.history() + Seq::<
                                    Notification,
                                >::empty() =~= old(self).notifier.history());
                            }
                        } else {
                            proof {
                                assert(old(self).notifier.history() + Seq::<
                                    Notification,
                                >::empty() =~= old(self).notifier.history());
                            }
                        }
                    } else if self.in_ready_check && self.all_players_readied() {
                        self.ready_check_completed(settings);
                    } else {
                        proof {
                            assert(old(self).notifier.history() + Seq::<Notification>::empty()
                                =~= old(self).notifier.history());
                        }
                    }
                },
            }
        } else {
            // Removal signal.
            if is_self {
                // Self left the squad: reset the cache and force
                // end-of-check semantics, active check or not.
                self.self_readied = false;
                self.cached_players.clear();
                self.ready_check_ended();
                proof {
                    assert(self@.players =~= Map::<Seq<char>, CachedUserInfo>::empty());
                    assert(self@ =~= stepped.0);
                    assert(old(self).notifier.history() + Seq::<Notification>::empty() =~= old(
                        self,
                    ).notifier.history());
                }
            } else {
                let position = self.find_player(&name);
                match position {
                    Some(i) => {
                        proof {
                            lemma_kv_map_remove(self.cached_players@, i as int);
                        }
                        self.cached_players.remove(i);
                        proof {
                            assert(self@ =~= stepped.0);
                        }
                    },
                    None => {
                        proof {
                            lemma_kv_map_absent(self.cached_players@, name_view);
                            assert(m0.players.remove(name_view) =~= m0.players);
                            assert(self@ =~= stepped.0);
                        }
                    },
                }
                proof {
                    assert(old(self).notifier.history() + Seq::<Notification>::empty() =~= old(
                        self,
                    ).notifier.history());
                }
            }
        }
    }

    /// Process a batch of user-update events in delivery order.
    ///
    /// The resulting state and the notifier calls made are exactly those
    /// of [`step_users`] applied to the previous state.
    pub fn update_users(
        &mut self,
        users: &Vec<UserUpdate>,
        self_account_name: &str,
        settings: &Settings,
        now: u64,
    )
        requires
            old(self).wf(),
        ensures
            final(self).wf(),
            ({
                let stepped = step_users(old(self)@, users@, self_account_name@, *settings, now);
                final(self)@ == stepped.0 && final(self).notifier.history() == old(
                    self,
                ).notifier.history() + stepped.1
            }),
    {
        proof {
            assert(users@.take(0) =~= Seq::<UserUpdate>::empty());
            assert(old(self).notifier.history() + Seq::<Notification>::empty() =~= old(
                self,
            ).notifier.history());
        }
        let n = users.len();
        let mut i: usize = 0;
        while i < n
            invariant
                i <= n,
                n == users@.len(),
                self.wf(),
                ({
                    let sofar = step_users(
                        old(self)@,
                        users@.take(i as int),
                        self_account_name@,
                        *settings,
                        now,
                    );
                    self@ == sofar.0 && self.notifier.history() == old(self).notifier.history()
                        + sofar.1
                }),
            decreases n - i,
        {
            let ghost sofar = step_users(
                old(self)@,
                users@.take(i as int),
                self_account_name@,
                *settings,
                now,
            );
            proof {
                assert(users@.take(i + 1) =~= users@.take(i as int).push(users@[i as int]));
                lemma_step_users_snoc(
                    old(self)@,
                    users@.take(i as int),
                    users@[i as int],
                    self_account_name@,
                    *settings,
                    now,
                );
            }
            self.process_user(&users[i], self_account_name, settings, now);
            proof {
                let stepped = step_user(sofar.0, users@[i as int], self_account_name@, *settings, now);
                assert((old(self).notifier.history() + sofar.1) + stepped.1 =~= old(
                    self,
                ).notifier.history() + (sofar.1 + stepped.1));
            }
            i += 1;
        }
        proof {
            assert(users@.take(n as int) =~= users@);
        }
    }

    /// One polling tick of the nag reminder, exactly as [`tick_model`]
    /// describes: while a check is active, the local user has not readied
    /// and nagging is enabled, re-stamp the deadline and notify once the
    /// previous deadline has passed.
    pub fn tick(&mut self, settings: &Settings, now: u64)
        requires
            old(self).wf(),
        ensures
            final(self).wf(),
            ({
                let ticked = tick_model(old(self)@, *settings, now);
                final(self)@ == ticked.0 && final(self).notifier.history() == old(
                    self,
                ).notifier.history() + ticked.1
            }),
    {
        proof {
            assert(old(self).notifier.history() + Seq::<Notification>::empty() =~= old(
                self,
            ).notifier.history());
        }
        // No active ready check.
        if !self.in_ready_check {
            return ;
        }
        // Self is already readied up.
        if self.self_readied {
            return ;
        }
        // Nagging is disabled.
        if !settings.ready_check_nag {
            return ;
        }
        // The stamped deadline has not passed yet.
        if let Some(nag_time) = self.ready_check_nag_time {
            if now < nag_time {
                return ;
            }
        }
        self.set_ready_check_nag_time(settings, now);
        self.notifier.flash_window(settings);
        self.notifier.play_ready_check(settings);
        proof {
            assert(self@ =~= tick_model(old(self)@, *settings, now).0);
            assert(old(self).notifier.history().push(Notification::FlashWindow).push(
                Notification::PlayReadyCheck,
            ) =~= old(self).notifier.history() + started_notices());
        }
    }
}

/// Law: an event that is not a leader readying up can neither start nor
/// complete a ready check while none is active, and makes no notifier
/// call at all. In particular a member readying up while no check is
/// active never triggers squad-ready playback.
pub proof fn lemma_step_without_leader_ready(
    m: TrackerModel,
    user: UserUpdate,
    self_account_name: Seq<char>,
    settings: Settings,
    now: u64,
)
    requires
        !m.in_ready_check,
        !(user.role == UserRole::SquadLeader && user.ready_status),
    ensures
        !step_user(m, user, self_account_name, settings, now).0.in_ready_check,
        step_user(m, user, self_account_name, settings, now).1 == Seq::<Notification>::empty(),
{
}

/// Law: over a whole event sequence in which no update reports a squad
/// leader with the ready flag set, the tracker never enters a ready
/// check and never calls the notifier — so squad-ready never fires.
pub proof fn lemma_no_leader_ready_keeps_check_off(
    m: TrackerModel,
    users: Seq<UserUpdate>,
    self_account_name: Seq<char>,
    settings: Settings,
    now: u64,
)
    requires
        !m.in_ready_check,
        forall|i: int|
            0 <= i < users.len() ==> !((#[trigger] users[i]).role == UserRole::SquadLeader
                && users[i].ready_status),
    ensures
        !step_users(m, users, self_account_name, settings, now).0.in_ready_check,
        step_users(m, users, self_account_name, settings, now).1 == Seq::<Notification>::empty(),
    decreases users.len(),
{
    if users.len() > 0 {
        assert(users.first() == users[0]);
        lemma_step_without_leader_ready(m, users.first(), self_account_name, settings, now);
        let head = step_user(m, users.first(), self_account_name, settings, now);
        assert forall|i: int| 0 <= i < users.drop_first().len() implies !((#[trigger] users
            .drop_first()[i]).role == UserRole::SquadLeader && users.drop_first()[i].ready_status)
            by {
            assert(users.drop_first()[i] == users[i + 1]);
        }
        lemma_no_leader_ready_keeps_check_off(
            head.0,
            users.drop_first(),
            self_account_name,
            settings,
            now,
        );
        assert(head.1 + step_users(head.0, users.drop_first(), self_account_name, settings, now).1
            =~= Seq::<Notification>::empty());
    }
}

/// How often a kind occurs in a two-call sequence.
pub proof fn lemma_count_matching_pair(a: Notification, b: Notification, kind: Notification)
    ensures
        count_matching(seq![a, b], kind) == (if a == kind {
            1nat
        } else {
            0nat
        }) + (if b == kind {
            1nat
        } else {
            0nat
        }),
{
    let pair = seq![a, b];
    assert(pair.last() == b);
    assert(pair.drop_last() =~= seq![a]);
    assert(seq![a].last() == a);
    assert(seq![a].drop_last() =~= Seq::<Notification>::empty());
    assert(count_matching(Seq::<Notification>::empty(), kind) == 0);
    assert(count_matching(seq![a], kind) == if a == kind {
        1nat
    } else {
        0nat
    });
}

/// `started_notices()` plays the ready-check sound exactly once and the
/// squad-ready sound not at all.
pub proof fn lemma_started_notices_counts()
    ensures
        count_matching(started_notices(), Notification::PlayReadyCheck) == 1,
        count_matching(started_notices(), Notification::PlaySquadReady) == 0,
{
    lemma_count_matching_pair(
        Notification::FlashWindow,
        Notification::PlayReadyCheck,
        Notification::PlayReadyCheck,
    );
    lemma_count_matching_pair(
        Notification::FlashWindow,
        Notification::PlayReadyCheck,
        Notification::PlaySquadReady,
    );
}

/// `completed_notices()` plays the squad-ready sound exactly once and the
/// ready-check sound not at all.
pub proof fn lemma_completed_notices_counts()
    ensures
        count_matching(completed_notices(), Notification::PlaySquadReady) == 1,
        count_matching(completed_notices(), Notification::PlayReadyCheck) == 0,
{
    lemma_count_matching_pair(
        Notification::FlashWindow,
        Notification::PlaySquadReady,
        Notification::PlaySquadReady,
    );
    lemma_count_matching_pair(
        Notification::FlashWindow,
        Notification::PlaySquadReady,
        Notification::PlayReadyCheck,
    );
}

/// Law: a cached, not-ready squad leader readying up starts exactly one
/// ready check — one flash and one ready-check play, and the lifecycle
/// flag rises with both timestamps stamped from `now`.
pub proof fn lemma_leader_ready_starts_check(
    m: TrackerModel,
    user: UserUpdate,
    self_account_name: Seq<char>,
    settings: Settings,
    now: u64,
)
    requires
        user.account_name is Some,
        user.role == UserRole::SquadLeader,
        user.ready_status,
        m.players.contains_key(stripped_name(user.account_name->0@)),
        !m.players[stripped_name(user.account_name->0@)].ready_status,
    ensures
        step_user(m, user, self_account_name, settings, now).0.in_ready_check,
        step_user(m, user, self_account_name, settings, now).0.ready_check_start_time == Some(now),
        step_user(m, user, self_account_name, settings, now).0.ready_check_nag_time == Some(
            nag_deadline(now, settings.ready_check_nag_interval_millis),
        ),
        step_user(m, user, self_account_name, settings, now).1 == started_notices(),
        count_matching(
            step_user(m, user, self_account_name, settings, now).1,
            Notification::PlayReadyCheck,
        ) == 1,
{
    lemma_started_notices_counts();
}

/// Law: a leader update whose ready flag is still down starts nothing,
/// stays silent, and leaves the cached leader entry not ready — so any
/// number of not-ready→not-ready leader updates before the real one
/// change nothing about the start that follows.
pub proof fn lemma_leader_not_ready_update_is_quiet(
    m: TrackerModel,
    user: UserUpdate,
    self_account_name: Seq<char>,
    settings: Settings,
    now: u64,
)
    requires
        user.account_name is Some,
        user.role == UserRole::SquadLeader,
        !user.ready_status,
        m.players.contains_key(stripped_name(user.account_name->0@)) ==> !m.players[stripped_name(
            user.account_name->0@,
        )].ready_status,
    ensures
        step_user(m, user, self_account_name, settings, now).0.in_ready_check
            == m.in_ready_check,
        step_user(m, user, self_account_name, settings, now).1 == Seq::<Notification>::empty(),
        step_user(m, user, self_account_name, settings, now).0.players.contains_key(
            stripped_name(user.account_name->0@),
        ),
        !step_user(m, user, self_account_name, settings, now).0.players[stripped_name(
            user.account_name->0@,
        )].ready_status,
{
}

/// Law: however many not-ready leader updates precede it, the leader's
/// not-ready→ready transition starts exactly one ready check over the
/// whole batch: one flash and one ready-check play, nothing else.
pub proof fn lemma_start_fires_once_over_batch(
    m: TrackerModel,
    quiet: Seq<UserUpdate>,
    user: UserUpdate,
    self_account_name: Seq<char>,
    settings: Settings,
    now: u64,
)
    requires
        user.account_name is Some,
        user.role == UserRole::SquadLeader,
        user.ready_status,
        m.players.contains_key(stripped_name(user.account_name->0@)),
        !m.players[stripped_name(user.account_name->0@)].ready_status,
        forall|i: int|
            0 <= i < quiet.len() ==> (#[trigger] quiet[i]).account_name == user.account_name
                && quiet[i].role == UserRole::SquadLeader && !quiet[i].ready_status,
    ensures
        step_users(m, quiet.push(user), self_account_name, settings, now).0.in_ready_check,
        step_users(m, quiet.push(user), self_account_name, settings, now).1
            == started_notices(),
        count_matching(
            step_users(m, quiet.push(user), self_account_name, settings, now).1,
            Notification::PlayReadyCheck,
        ) == 1,
    decreases quiet.len(),
{
    reveal_with_fuel(step_users, 3);
    let batch = quiet.push(user);
    if quiet.len() == 0 {
        assert(batch.first() == user);
        assert(batch.drop_first() =~= Seq::<UserUpdate>::empty());
        lemma_leader_ready_starts_check(m, user, self_account_name, settings, now);
        let head = step_user(m, user, self_account_name, settings, now);
        assert(head.1 + Seq::<Notification>::empty() =~= head.1);
        lemma_started_notices_counts();
    } else {
        assert(batch.first() == quiet[0]);
        assert(batch.drop_first() =~= quiet.drop_first().push(user));
        lemma_leader_not_ready_update_is_quiet(m, quiet[0], self_account_name, settings, now);
        let head = step_user(m, quiet[0], self_account_name, settings, now);
        assert forall|i: int| 0 <= i < quiet.drop_first().len() implies (#[trigger] quiet
            .drop_first()[i]).account_name == user.account_name && quiet.drop_first()[i].role
            == UserRole::SquadLeader && !quiet.drop_first()[i].ready_status by {
            assert(quiet.drop_first()[i] == quiet[i + 1]);
        }
        lemma_start_fires_once_over_batch(
            head.0,
            quiet.drop_first(),
            user,
            self_account_name,
            settings,
            now,
        );
        let rest = step_users(
            head.0,
            quiet.drop_first().push(user),
            self_account_name,
            settings,
            now,
        );
        assert(head.1 + rest.1 =~= started_notices());
        lemma_started_notices_counts();
    }
}

/// Law: while a check is active, a qualifying non-leader update after
/// which every counted member is ready completes the check: exactly one
/// flash and one squad-ready play, and the lifecycle flag falls with the
/// nag deadline cleared.
pub proof fn lemma_completion_on_all_ready(
    m: TrackerModel,
    user: UserUpdate,
    self_account_name: Seq<char>,
    settings: Settings,
    now: u64,
)
    requires
        m.in_ready_check,
        user.account_name is Some,
        user.role != UserRole::SquadLeader,
        user.role != UserRole::NoRole,
        m.players.contains_key(stripped_name(user.account_name->0@)),
        all_players_ready(
            m.players.insert(
                stripped_name(user.account_name->0@),
                CachedUserInfo {
                    role: user.role,
                    subgroup: user.subgroup,
                    ready_status: user.ready_status,
                },
            ),
        ),
    ensures
        !step_user(m, user, self_account_name, settings, now).0.in_ready_check,
        step_user(m, user, self_account_name, settings, now).0.ready_check_nag_time is None,
        step_user(m, user, self_account_name, settings, now).0.ready_check_start_time is None,
        step_user(m, user, self_account_name, settings, now).1 == completed_notices(),
        count_matching(
            step_user(m, user, self_account_name, settings, now).1,
            Notification::PlaySquadReady,
        ) == 1,
{
    lemma_completed_notices_counts();
}

/// Law: a role-removal update for the local account empties the member
/// cache and force-ends any ready check, silently — even mid-check.
pub proof fn lemma_self_leave_resets(
    m: TrackerModel,
    user: UserUpdate,
    self_account_name: Seq<char>,
    settings: Settings,
    now: u64,
)
    requires
        user.account_name is Some,
        user.role == UserRole::NoRole,
        stripped_name(user.account_name->0@) == self_account_name,
    ensures
        step_user(m, user, self_account_name, settings, now).0.players =~= Map::<
            Seq<char>,
            CachedUserInfo,
        >::empty(),
        !step_user(m, user, self_account_name, settings, now).0.in_ready_check,
        !step_user(m, user, self_account_name, settings, now).0.self_readied,
        step_user(m, user, self_account_name, settings, now).0.ready_check_start_time is None,
        step_user(m, user, self_account_name, settings, now).1 == Seq::<Notification>::empty(),
{
}

/// Law: once the local user has readied up, a tick changes nothing and
/// makes no notifier call, whatever the deadline says.
pub proof fn lemma_tick_after_self_ready_is_quiet(m: TrackerModel, settings: Settings, now: u64)
    requires
        m.self_readied,
    ensures
        tick_model(m, settings, now).0 == m,
        tick_model(m, settings, now).1 == Seq::<Notification>::empty(),
{
}

/// Law: while a check is active, the local user has not readied, nagging
/// is enabled and the stamped deadline (if any) has passed, a tick nags
/// exactly once — one flash and one ready-check play — and re-stamps the
/// deadline from `now`.
pub proof fn lemma_tick_due_nags_once(m: TrackerModel, settings: Settings, now: u64)
    requires
        m.in_ready_check,
        !m.self_readied,
        settings.ready_check_nag,
        m.ready_check_nag_time is Some ==> m.ready_check_nag_time->0 <= now,
    ensures
        tick_model(m, settings, now).0.ready_check_nag_time == Some(
            nag_deadline(now, settings.ready_check_nag_interval_millis),
        ),
        tick_model(m, settings, now).0.in_ready_check,
        tick_model(m, settings, now).1 == started_notices(),
        count_matching(tick_model(m, settings, now).1, Notification::PlayReadyCheck) == 1,
{
    lemma_started_notices_counts();
}

/// Law: applying the same "leader is ready" event twice in a row runs the
/// start logic at most on the first application; the repetition changes
/// nothing and makes no notifier call.
pub proof fn lemma_leader_ready_event_idempotent(
    m: TrackerModel,
    user: UserUpdate,
    self_account_name: Seq<char>,
    settings: Settings,
    now: u64,
)
    requires
        user.account_name is Some,
        user.role == UserRole::SquadLeader,
        user.ready_status,
    ensures
        ({
            let once = step_user(m, user, self_account_name, settings, now);
            let twice = step_user(once.0, user, self_account_name, settings, now);
            twice.0 =~= once.0 && twice.1 == Seq::<Notification>::empty()
        }),
{
    let name = stripped_name(user.account_name->0@);
    let info = CachedUserInfo {
        role: user.role,
        subgroup: user.subgroup,
        ready_status: user.ready_status,
    };
    let once = step_user(m, user, self_account_name, settings, now);
    let twice = step_user(once.0, user, self_account_name, settings, now);
    assert(once.0.players.contains_key(name) && once.0.players[name] == info);
    assert(once.0.players.insert(name, info) =~= once.0.players);
    assert(twice.0 =~= once.0);
}

/// Per-player row of the debug snapshot.
#[derive(Clone, Debug)]
pub struct DebugPlayerInfo {
    pub role: String,
    pub subgroup: u8,
    pub ready_status: bool,
}

/// Read-only snapshot of the tracker state for a diagnostics window.
#[derive(Clone, Debug)]
pub struct DebugInfo {
    pub in_ready_check: bool,
    pub self_readied: bool,
    pub ready_check_elapsed_millis: Option<u64>,
    pub time_until_nag_millis: Option<u64>,
    pub cached_players: Vec<(String, DebugPlayerInfo)>,
}

/// The characters of a role's display name.
pub open spec fn spec_role_name(role: UserRole) -> Seq<char> {
    match role {
        UserRole::SquadLeader => "SquadLeader"@,
        UserRole::Lieutenant => "Lieutenant"@,
        UserRole::Member => "Member"@,
        UserRole::Invited => "Invited"@,
        UserRole::Applied => "Applied"@,
        UserRole::NoRole => "NoRole"@,
        UserRole::Invalid => "Invalid"@,
    }
}

/// Human-readable name of a role, as the debug snapshot carries it.
pub fn role_name(role: UserRole) -> (name: String)
    ensures
        name@ == spec_role_name(role),
{
    match role {
        UserRole::SquadLeader => "SquadLeader".to_owned(),
        UserRole::Lieutenant => "Lieutenant".to_owned(),
        UserRole::Member => "Member".to_owned(),
        UserRole::Invited => "Invited".to_owned(),
        UserRole::Applied => "Applied".to_owned(),
        UserRole::NoRole => "NoRole".to_owned(),
        UserRole::Invalid => "Invalid".to_owned(),
    }
}

impl<N: SquadNotifier> SquadTracker<N> {
    /// A read-only snapshot of the current state: the lifecycle flags,
    /// how long the active check has been running, how long until the
    /// next nag, and one row per cached member. Reading it changes
    /// nothing.
    pub fn get_debug_info(&self, now: u64) -> (info: DebugInfo)
        ensures
            info.in_ready_check == self@.in_ready_check,
            info.self_readied == self@.self_readied,
            info.ready_check_elapsed_millis == match self@.ready_check_start_time {
                Some(start) => Some(if now >= start {
                    (now - start) as u64
                } else {
                    0u64
                }),
                None => None::<u64>,
            },
            info.time_until_nag_millis == match self@.ready_check_nag_time {
                Some(nag_time) => if nag_time > now {
                    Some((nag_time - now) as u64)
                } else {
                    None::<u64>
                },
                None => None::<u64>,
            },
            info.cached_players@.len() == self.cached_players@.len(),
            forall|i: int|
                0 <= i < info.cached_players@.len() ==> {
                    let entry = self.cached_players@[i];
                    let row = #[trigger] info.cached_players@[i];
                    row.0@ == entry.0@ && row.1.role@ == spec_role_name(entry.1.role)
                        && row.1.subgroup == entry.1.subgroup && row.1.ready_status
                        == entry.1.ready_status
                },
    {
        let ready_check_elapsed_millis = match self.ready_check_start_time {
            Some(start) => Some(
                if now >= start {
                    now - start
                } else {
                    0
                },
            ),
            None => None,
        };
        let time_until_nag_millis = match self.ready_check_nag_time {
            Some(nag_time) => if nag_time > now {
                Some(nag_time - now)
            } else {
                None
            },
            None => None,
        };
        let mut cached_players: Vec<(String, DebugPlayerInfo)> = Vec::new();
        let mut i: usize = 0;
        let n = self.cached_players.len();
        while i < n
            invariant
                i <= n,
                n == self.cached_players@.len(),
                cached_players@.len() == i,
                forall|j: int|
                    0 <= j < i ==> {
                        let entry = self.cached_players@[j];
                        let row = #[trigger] cached_players@[j];
                        row.0@ == entry.0@ && row.1.role@ == spec_role_name(entry.1.role)
                            && row.1.subgroup == entry.1.subgroup && row.1.ready_status
                            == entry.1.ready_status
                    },
            decreases n - i,
        {
            let name = self.cached_players[i].0.clone();
            let member = self.cached_players[i].1;
            cached_players.push(
                (
                    name,
                    DebugPlayerInfo {
                        role: role_name(member.role),
                        subgroup: member.subgroup,
                        ready_status: member.ready_status,
                    },
                ),
            );
            i += 1;
        }
        DebugInfo {
            in_ready_check: self.in_ready_check,
            self_readied: self.self_readied,
            ready_check_elapsed_millis,
            time_until_nag_millis,
            cached_players,
        }
    }
}

impl SquadTracker<RecordingNotifier> {
    /// A fresh tracker around a recording notifier; the host glue drains
    /// the recorded calls after each update and performs them.
    pub fn new() -> (tracker: SquadTracker<RecordingNotifier>)
        ensures
            tracker.wf(),
            tracker@.players =~= Map::<Seq<char>, CachedUserInfo>::empty(),
            !tracker@.in_ready_check,
            !tracker@.self_readied,
            tracker@.ready_check_start_time is None,
            tracker@.ready_check_nag_time is None,
            tracker.notifier.history() == Seq::<Notification>::empty(),
    {
        Self::with_notifier(RecordingNotifier::new())
    }
}

} // verus!
