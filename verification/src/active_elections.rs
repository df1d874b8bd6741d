//! Bookkeeping and decisions of the active elections container.

use vstd::prelude::*;
use crate::numbers::QualifiedRoot;
use crate::election::{ElectionBehavior, ElectionData, ElectionState, ElectionStatus, ElectionStatusType, spec_time_to_live, time_to_live};

verus! {

/// Maximum number of blocks that compete within one election.
pub const ELECTION_MAX_BLOCKS: usize = 10;

#[derive(Clone, Copy, Debug, PartialEq, Eq)]
pub struct ActiveElectionsConfig {
    /// Maximum number of simultaneous active elections.
    pub size: usize,
    /// Limit of hinted elections as percentage of `size`.
    pub hinted_limit_percentage: usize,
    /// Limit of optimistic elections as percentage of `size`.
    pub optimistic_limit_percentage: usize,
    /// Maximum confirmation history size.
    pub confirmation_history_size: usize,
    /// Maximum cache size for recently confirmed elections.
    pub confirmation_cache: usize,
    /// Maximum size of the election winner details set.
    pub max_election_winners: usize,
}

impl ActiveElectionsConfig {
    pub open spec fn spec_default() -> Self {
        ActiveElectionsConfig {
            size: 5000,
            hinted_limit_percentage: 20,
            optimistic_limit_percentage: 10,
            confirmation_history_size: 2048,
            confirmation_cache: 65536,
            max_election_winners: 16384,
        }
    }

    pub fn default() -> (r: Self)
        ensures
            r == Self::spec_default(),
            r.size == 5000,
            r.hinted_limit_percentage == 20,
            r.optimistic_limit_percentage == 10,
            r.confirmation_history_size == 2048,
            r.confirmation_cache == 65536,
            r.max_election_winners == 1024 * 16,
    {
        ActiveElectionsConfig {
            size: 5000,
            hinted_limit_percentage: 20,
            optimistic_limit_percentage: 10,
            confirmation_history_size: 2048,
            confirmation_cache: 65536,
            max_election_winners: 1024 * 16,
        }
    }
}

/// Counts reported about the container.
#[derive(Clone, Copy, Debug, PartialEq, Eq, Default)]
pub struct ActiveElectionsInfo {
    pub max_queue: usize,
    pub total: usize,
    pub priority: usize,
    pub hinted: usize,
    pub optimistic: usize,
}

/// The soft limit of elections of a behavior.
pub open spec fn spec_limit(config: ActiveElectionsConfig, behavior: ElectionBehavior) -> int {
    match behavior {
        ElectionBehavior::Manual => usize::MAX as int,
        ElectionBehavior::Priority => config.size as int,
        ElectionBehavior::Hinted => config.hinted_limit_percentage * config.size / 100,
        ElectionBehavior::Optimistic => config.optimistic_limit_percentage * config.size / 100,
    }
}

/// The percentages can be applied without overflow.
pub open spec fn limits_fit(config: ActiveElectionsConfig) -> bool {
    &&& config.hinted_limit_percentage * config.size <= usize::MAX
    &&& config.optimistic_limit_percentage * config.size <= usize::MAX
}

/// Maximum number of elections of the behavior that should be present.
/// This is only a soft limit: the container may hold more.
pub fn limit(config: &ActiveElectionsConfig, behavior: ElectionBehavior) -> (r: usize)
    requires
        limits_fit(*config),
    ensures
        r == spec_limit(*config, behavior),
{
    match behavior {
        ElectionBehavior::Manual => usize::MAX,
        ElectionBehavior::Priority => config.size,
        ElectionBehavior::Hinted => config.hinted_limit_percentage * config.size / 100,
        ElectionBehavior::Optimistic => config.optimistic_limit_percentage * config.size / 100,
    }
}

/// How many elections of each behavior are active.
#[derive(Clone, Copy, Debug, PartialEq, Eq)]
pub struct BehaviorCounts {
    pub manual: usize,
    pub priority: usize,
    pub hinted: usize,
    pub optimistic: usize,
}

impl BehaviorCounts {
    pub open spec fn spec_count(self, behavior: ElectionBehavior) -> nat {
        match behavior {
            ElectionBehavior::Manual => self.manual as nat,
            ElectionBehavior::Priority => self.priority as nat,
            ElectionBehavior::Hinted => self.hinted as nat,
            ElectionBehavior::Optimistic => self.optimistic as nat,
        }
    }

    pub fn new() -> (r: Self)
        ensures
            forall|b: ElectionBehavior| r.spec_count(b) == 0,
    {
        BehaviorCounts { manual: 0, priority: 0, hinted: 0, optimistic: 0 }
    }

    pub fn count_by_behavior(&self, behavior: ElectionBehavior) -> (r: usize)
        ensures
            r == self.spec_count(behavior),
    {
        match behavior {
            ElectionBehavior::Manual => self.manual,
            ElectionBehavior::Priority => self.priority,
            ElectionBehavior::Hinted => self.hinted,
            ElectionBehavior::Optimistic => self.optimistic,
        }
    }

    pub fn increment(&mut self, behavior: ElectionBehavior)
        requires
            old(self).spec_count(behavior) < usize::MAX,
        ensures
            final(self).spec_count(behavior) == old(self).spec_count(behavior) + 1,
            forall|b: ElectionBehavior| b != behavior ==> final(self).spec_count(b) == old(self).spec_count(b),
    {
        match behavior {
            ElectionBehavior::Manual => self.manual = self.manual + 1,
            ElectionBehavior::Priority => self.priority = self.priority + 1,
            ElectionBehavior::Hinted => self.hinted = self.hinted + 1,
            ElectionBehavior::Optimistic => self.optimistic = self.optimistic + 1,
        }
    }

    pub fn decrement(&mut self, behavior: ElectionBehavior)
        requires
            old(self).spec_count(behavior) > 0,
        ensures
            final(self).spec_count(behavior) == old(self).spec_count(behavior) - 1,
            forall|b: ElectionBehavior| b != behavior ==> final(self).spec_count(b) == old(self).spec_count(b),
    {
        match behavior {
            ElectionBehavior::Manual => self.manual = self.manual - 1,
            ElectionBehavior::Priority => self.priority = self.priority - 1,
            ElectionBehavior::Hinted => self.hinted = self.hinted - 1,
            ElectionBehavior::Optimistic => self.optimistic = self.optimistic - 1,
        }
    }
}

/// Free election slots of a behavior, before considering the winners set.
pub open spec fn spec_election_vacancy(config: ActiveElectionsConfig, behavior: ElectionBehavior, total: nat, counts: BehaviorCounts) -> int {
    match behavior {
        ElectionBehavior::Manual => i64::MAX as int,
        ElectionBehavior::Priority => (config.size as i64) - (total as i64),
        _ => (spec_limit(config, behavior) as i64) - (counts.spec_count(behavior) as i64),
    }
}

/// Free slots in the set of election winner details.
pub open spec fn spec_winners_vacancy(config: ActiveElectionsConfig, winner_details: nat) -> int {
    (config.max_election_winners as i64) - (winner_details as i64)
}

/// The subtractions above stay within 64-bit signed integers.
pub open spec fn vacancy_fits(config: ActiveElectionsConfig, behavior: ElectionBehavior, total: nat, counts: BehaviorCounts, winner_details: nat) -> bool {
    &&& limits_fit(config)
    &&& total <= usize::MAX
    &&& winner_details <= usize::MAX
    &&& i64::MIN <= spec_election_vacancy(config, behavior, total, counts) <= i64::MAX
    &&& i64::MIN <= spec_winners_vacancy(config, winner_details) <= i64::MAX
}

/// How many election slots are available for the behavior: the smaller of its free
/// slots and the free slots in the winners set.
pub fn vacancy(config: &ActiveElectionsConfig, behavior: ElectionBehavior, total: usize, counts: &BehaviorCounts, winner_details: usize) -> (r: i64)
    requires
        vacancy_fits(*config, behavior, total as nat, *counts, winner_details as nat),
    ensures
        r == (if spec_election_vacancy(*config, behavior, total as nat, *counts) < spec_winners_vacancy(*config, winner_details as nat) {
            spec_election_vacancy(*config, behavior, total as nat, *counts)
        } else {
            spec_winners_vacancy(*config, winner_details as nat)
        }),
{
    let election_vacancy: i64 = match behavior {
        ElectionBehavior::Manual => i64::MAX,
        ElectionBehavior::Priority => (config.size as i64) - (total as i64),
        _ => (limit(config, behavior) as i64) - (counts.count_by_behavior(behavior) as i64),
    };
    let winners_vacancy: i64 = (config.max_election_winners as i64) - (winner_details as i64);
    if election_vacancy < winners_vacancy { election_vacancy } else { winners_vacancy }
}

/// Minimum time between broadcasts of the current winner, in milliseconds.
pub fn base_latency(is_dev_network: bool) -> (r: u64)
    ensures
        r == (if is_dev_network { 25u64 } else { 1000u64 }),
{
    if is_dev_network { 25 } else { 1000 }
}

/// Time between confirmation requests for an election, in milliseconds.
pub fn confirm_req_time(behavior: ElectionBehavior, is_dev_network: bool) -> (r: u64)
    ensures
        r == (if behavior == ElectionBehavior::Optimistic { 2 * base_latency_of(is_dev_network) } else { 5 * base_latency_of(is_dev_network) }),
{
    match behavior {
        ElectionBehavior::Optimistic => base_latency(is_dev_network) * 2,
        _ => base_latency(is_dev_network) * 5,
    }
}

pub open spec fn base_latency_of(is_dev_network: bool) -> int {
    if is_dev_network { 25 } else { 1000 }
}

/// How long the request loop sleeps after a round that started at `stamp` (milliseconds):
/// until a full loop interval has passed since the start, but at least half an interval.
pub fn request_loop_wait_ms(stamp: u64, now: u64, loop_interval_ms: u64) -> (r: u64)
    requires
        stamp + loop_interval_ms <= u64::MAX,
    ensures
        r == ({
            let remaining = if stamp + loop_interval_ms > now { stamp + loop_interval_ms - now } else { 0 };
            let min_sleep = loop_interval_ms / 2;
            if remaining > min_sleep { remaining } else { min_sleep as int }
        }),
{
    let end = stamp + loop_interval_ms;
    let remaining = if end > now { end - now } else { 0 };
    let min_sleep = loop_interval_ms / 2;
    if remaining > min_sleep { remaining } else { min_sleep }
}

/// A passive election turns active after this factor times the base latency.
pub const PASSIVE_DURATION_FACTOR: u64 = 5;

/// What one round of the request loop does with an election.
#[derive(Clone, Copy, Debug, PartialEq, Eq)]
pub struct TransitionOutcome {
    /// The election is finished and leaves the container.
    pub cleanup: bool,
    /// Broadcast the own vote and the winning block, and request confirmations.
    pub solicit: bool,
    /// Broadcast the winning block of a confirmed election.
    pub broadcast_winner: bool,
    /// The election ran out of time and stopped unconfirmed.
    pub expired: bool,
}

/// What one round of the request loop does (see `transition_time`): `after` and `r` follow
/// from `before`.
pub open spec fn transitioned(before: ElectionData, behavior: ElectionBehavior, age_ms: u64, now: u64, is_dev_network: bool,
    r: TransitionOutcome, after: ElectionData) -> bool {
    &&& (before.state == ElectionState::Cancelled ==> r == (TransitionOutcome { cleanup: true, solicit: false, broadcast_winner: false, expired: false }) && after == before)
    &&& (before.state != ElectionState::Cancelled ==> {
            let passive_done = before.state == ElectionState::Passive && base_latency_of(is_dev_network) * 5 < age_ms;
            let mid_state = if passive_done { ElectionState::Active }
                else if before.state == ElectionState::Confirmed { ElectionState::ExpiredConfirmed }
                else { before.state };
            let expire = !mid_state.spec_is_confirmed() && spec_time_to_live(behavior) < age_ms;
            &&& r.solicit == (before.state == ElectionState::Active)
            &&& r.broadcast_winner == (before.state == ElectionState::Confirmed)
            &&& r.expired == expire
            &&& r.cleanup == (before.state == ElectionState::Confirmed || expire)
            &&& after.state == (if expire { ElectionState::ExpiredUnconfirmed } else { mid_state })
            &&& (after.state != before.state ==> after.state_start == now)
            &&& (after.state == before.state ==> after.state_start == before.state_start)
            &&& after.status == (if expire {
                    ElectionStatus { election_status_type: ElectionStatusType::Stopped, ..before.status }
                } else {
                    before.status
                })
            &&& after.same_votes(before)
        })
}

/// Hinted and optimistic elections live 30 seconds, manual and priority ones five
/// minutes: an unconfirmed active election of the first kind older than 30 000 ms
/// expires in a round of the request loop (stopped, cleaned up), while one of the second
/// kind is kept until it is older than 300 000 ms.
pub proof fn lemma_elections_expire_after_their_time_to_live(
    before: ElectionData,
    behavior: ElectionBehavior,
    age_ms: u64,
    now: u64,
    is_dev_network: bool,
    r: TransitionOutcome,
    after: ElectionData,
)
    requires
        transitioned(before, behavior, age_ms, now, is_dev_network, r, after),
        before.state == ElectionState::Active,
    ensures
        (behavior == ElectionBehavior::Hinted || behavior == ElectionBehavior::Optimistic) ==>
            (r.expired && r.cleanup && after.state == ElectionState::ExpiredUnconfirmed
                && after.status.election_status_type == ElectionStatusType::Stopped) == (age_ms > 30_000),
        (behavior == ElectionBehavior::Manual || behavior == ElectionBehavior::Priority) ==>
            (r.expired && r.cleanup && after.state == ElectionState::ExpiredUnconfirmed
                && after.status.election_status_type == ElectionStatusType::Stopped) == (age_ms > 300_000),
        age_ms <= 30_000 ==> !r.expired && !r.cleanup && after.state == ElectionState::Active && after.status == before.status,
{
}

/// One round of the request loop for an election that is `age_ms` old at time `now`.
/// A passive election turns active once it is older than five base latencies; an active
/// one solicits confirmation; a confirmed one broadcasts its winner, expires confirmed and
/// leaves; a cancelled one leaves. An unconfirmed election older than its time to live
/// expires and leaves.
pub fn transition_time(data: &mut ElectionData, behavior: ElectionBehavior, age_ms: u64, now: u64, is_dev_network: bool) -> (r: TransitionOutcome)
    requires
        old(data).state != ElectionState::ExpiredConfirmed,
        old(data).state != ElectionState::ExpiredUnconfirmed,
    ensures
        old(data).state == ElectionState::Cancelled ==> r == (TransitionOutcome { cleanup: true, solicit: false, broadcast_winner: false, expired: false }) && *final(data) == *old(data),
        old(data).state != ElectionState::Cancelled ==> {
            let passive_done = old(data).state == ElectionState::Passive && base_latency_of(is_dev_network) * 5 < age_ms;
            let mid_state = if passive_done { ElectionState::Active }
                else if old(data).state == ElectionState::Confirmed { ElectionState::ExpiredConfirmed }
                else { old(data).state };
            let expire = !mid_state.spec_is_confirmed() && spec_time_to_live(behavior) < age_ms;
            &&& r.solicit == (old(data).state == ElectionState::Active)
            &&& r.broadcast_winner == (old(data).state == ElectionState::Confirmed)
            &&& r.expired == expire
            &&& r.cleanup == (old(data).state == ElectionState::Confirmed || expire)
            &&& final(data).state == (if expire { ElectionState::ExpiredUnconfirmed } else { mid_state })
            &&& (final(data).state != old(data).state ==> final(data).state_start == now)
            &&& (final(data).state == old(data).state ==> final(data).state_start == old(data).state_start)
            &&& final(data).status == (if expire {
                    ElectionStatus { election_status_type: ElectionStatusType::Stopped, ..old(data).status }
                } else {
                    old(data).status
                })
            &&& final(data).same_votes(*old(data))
        },
        transitioned(*old(data), behavior, age_ms, now, is_dev_network, r, *final(data)),
{
    let mut result = TransitionOutcome { cleanup: false, solicit: false, broadcast_winner: false, expired: false };
    match data.state {
        ElectionState::Passive => {
            if base_latency(is_dev_network) * PASSIVE_DURATION_FACTOR < age_ms {
                let _ = data.state_change(ElectionState::Passive, ElectionState::Active, now);
            }
        },
        ElectionState::Active => {
            result.solicit = true;
        },
        ElectionState::Confirmed => {
            result.cleanup = true;
            result.broadcast_winner = true;
            let _ = data.state_change(ElectionState::Confirmed, ElectionState::ExpiredConfirmed, now);
        },
        ElectionState::Cancelled => {
            result.cleanup = true;
            return result;
        },
        _ => {},
    }
    if !data.is_confirmed() && time_to_live(behavior) < age_ms {
        let state = data.state;
        if data.state_change(state, ElectionState::ExpiredUnconfirmed, now).is_ok() {
            result.cleanup = true;
            result.expired = true;
            data.status.election_status_type = ElectionStatusType::Stopped;
        }
    }
    result
}

/// The active elections keyed by root, in the order they started, with their counts.
pub struct ActiveElectionsState<E> {
    roots: Vec<(QualifiedRoot, ElectionBehavior, E)>,
    counts: BehaviorCounts,
    stopped: bool,
}

/// No root occurs twice.
pub open spec fn unique_roots<E>(s: Seq<(QualifiedRoot, ElectionBehavior, E)>) -> bool {
    forall|i: int, j: int| 0 <= i < j < s.len() ==> s[i].0 != s[j].0
}

pub open spec fn has_root<E>(s: Seq<(QualifiedRoot, ElectionBehavior, E)>, root: QualifiedRoot) -> bool {
    exists|i: int| 0 <= i < s.len() && s[i].0 == root
}

pub open spec fn root_position<E>(s: Seq<(QualifiedRoot, ElectionBehavior, E)>, root: QualifiedRoot) -> int {
    choose|i: int| 0 <= i < s.len() && s[i].0 == root
}

/// Number of elections of the behavior.
pub open spec fn count_of<E>(s: Seq<(QualifiedRoot, ElectionBehavior, E)>, behavior: ElectionBehavior) -> nat {
    s.filter(|e: (QualifiedRoot, ElectionBehavior, E)| e.1 == behavior).len()
}

/// Outcome of asking for an election on a root.
pub enum InsertOutcome {
    /// The container is stopped; nothing happened.
    Stopped,
    /// An election for the root already runs; its position.
    Existing(usize),
    /// The root was confirmed recently; nothing happened.
    RecentlyConfirmed,
    /// A new election was started.
    Inserted,
}

impl<E> ActiveElectionsState<E> {
    pub closed spec fn roots(&self) -> Seq<(QualifiedRoot, ElectionBehavior, E)> {
        self.roots@
    }

    pub closed spec fn counts(&self) -> BehaviorCounts {
        self.counts
    }

    pub closed spec fn is_stopped(&self) -> bool {
        self.stopped
    }

    /// The counters agree with the elections, and no root occurs twice.
    pub closed spec fn wf(&self) -> bool {
        &&& unique_roots(self.roots@)
        &&& forall|b: ElectionBehavior| self.counts.spec_count(b) == count_of(self.roots@, b)
    }

    /// What every well-formed container keeps: one election per root, and the count of
    /// each behavior is the number of its elections.
    pub proof fn lemma_wf(&self)
        requires
            self.wf(),
        ensures
            unique_roots(self.roots()),
            forall|b: ElectionBehavior| #[trigger] self.counts().spec_count(b) == count_of(self.roots(), b),
    {
    }

    pub fn new() -> (r: Self)
        ensures
            r.wf(),
            r.roots().len() == 0,
            !r.is_stopped(),
    {
        let r = ActiveElectionsState { roots: Vec::new(), counts: BehaviorCounts::new(), stopped: false };
        proof {
            assert forall|b: ElectionBehavior| r.counts.spec_count(b) == count_of(r.roots@, b) by {
                reveal_with_fuel(Seq::<_>::filter, 1);
            }
        }
        r
    }

    pub fn stop(&mut self)
        ensures
            final(self).is_stopped(),
            final(self).roots() == old(self).roots(),
            final(self).counts() == old(self).counts(),
    {
        self.stopped = true;
    }

    pub fn len(&self) -> (r: usize)
        ensures
            r == self.roots().len(),
    {
        self.roots.len()
    }

    pub fn count_by_behavior(&self, behavior: ElectionBehavior) -> (r: usize)
        requires
            self.wf(),
        ensures
            r == count_of(self.roots(), behavior),
    {
        self.counts.count_by_behavior(behavior)
    }

    fn position(&self, root: &QualifiedRoot) -> (r: Option<usize>)
        requires
            self.wf(),
        ensures
            match r {
                Some(i) => i < self.roots().len() && self.roots()[i as int].0 == *root && root_position(self.roots(), *root) == i,
                None => !has_root(self.roots(), *root),
            },
    {
        let mut i: usize = 0;
        while i < self.roots.len()
            invariant
                i <= self.roots@.len(),
                unique_roots(self.roots@),
                forall|j: int| 0 <= j < i ==> (#[trigger] self.roots@[j]).0 != *root,
            decreases self.roots@.len() - i,
        {
            if self.roots[i].0.equals(root) {
                assert(has_root(self.roots@, *root));
                let ghost k = root_position(self.roots@, *root);
                assert(k == i as int) by {
                    if k != i as int && k > i as int {
                        assert(self.roots@[i as int].0 != self.roots@[k].0);
                    }
                }
                return Some(i);
            }
            i = i + 1;
        }
        None
    }

    /// Whether an election for the root is active.
    pub fn active_root(&self, root: &QualifiedRoot) -> (r: bool)
        requires
            self.wf(),
        ensures
            r == has_root(self.roots(), *root),
    {
        self.position(root).is_some()
    }

    /// The election of the root.
    pub fn election(&self, root: &QualifiedRoot) -> (r: Option<&E>)
        requires
            self.wf(),
        ensures
            match r {
                Some(e) => has_root(self.roots(), *root) && *e == self.roots()[root_position(self.roots(), *root)].2,
                None => !has_root(self.roots(), *root),
            },
    {
        match self.position(root) {
            Some(i) => Some(&self.roots[i].2),
            None => None,
        }
    }

    /// Starts an election for the root unless the container is stopped, an election for
    /// the root already runs, or the root was confirmed recently.
    pub fn insert(&mut self, root: QualifiedRoot, behavior: ElectionBehavior, election: E, recently_confirmed: bool) -> (r: InsertOutcome)
        requires
            old(self).wf(),
            old(self).roots().len() < usize::MAX,
        ensures
            final(self).wf(),
            final(self).is_stopped() == old(self).is_stopped(),
            old(self).is_stopped() ==> r is Stopped && final(self).roots() == old(self).roots(),
            !old(self).is_stopped() && has_root(old(self).roots(), root) ==> r == InsertOutcome::Existing(root_position(old(self).roots(), root) as usize)
                && final(self).roots() == old(self).roots(),
            !old(self).is_stopped() && !has_root(old(self).roots(), root) && recently_confirmed ==> r is RecentlyConfirmed
                && final(self).roots() == old(self).roots(),
            !old(self).is_stopped() && !has_root(old(self).roots(), root) && !recently_confirmed ==> r is Inserted
                && final(self).roots() == old(self).roots().push((root, behavior, election)),
    {
        if self.stopped {
            return InsertOutcome::Stopped;
        }
        match self.position(&root) {
            Some(i) => InsertOutcome::Existing(i),
            None => {
                if recently_confirmed {
                    return InsertOutcome::RecentlyConfirmed;
                }
                let ghost before = self.roots@;
                proof {
                    lemma_count_le_len(before, behavior);
                }
                self.counts.increment(behavior);
                self.roots.push((root, behavior, election));
                proof {
                    assert forall|i: int, j: int| 0 <= i < j < self.roots@.len() implies self.roots@[i].0 != self.roots@[j].0 by {
                        if j == before.len() {
                            assert(self.roots@[i] == before[i]);
                        }
                    }
                    assert forall|b: ElectionBehavior| self.counts.spec_count(b) == count_of(self.roots@, b) by {
                        reveal_with_fuel(Seq::<_>::filter, 1);
                        assert(self.roots@.drop_last() =~= before);
                    }
                }
                InsertOutcome::Inserted
            },
        }
    }

    /// Removes the election of the root and returns it; the count of its behavior drops.
    pub fn erase(&mut self, root: &QualifiedRoot) -> (r: Option<(QualifiedRoot, ElectionBehavior, E)>)
        requires
            old(self).wf(),
        ensures
            final(self).wf(),
            final(self).is_stopped() == old(self).is_stopped(),
            match r {
                Some(e) => has_root(old(self).roots(), *root) && e == old(self).roots()[root_position(old(self).roots(), *root)]
                    && final(self).roots() == old(self).roots().remove(root_position(old(self).roots(), *root)),
                None => !has_root(old(self).roots(), *root) && final(self).roots() == old(self).roots(),
            },
    {
        match self.position(root) {
            Some(i) => {
                let ghost before = self.roots@;
                let behavior = self.roots[i].1;
                proof {
                    lemma_count_remove(before, i as int);
                }
                self.counts.decrement(behavior);
                let e = self.roots.remove(i);
                proof {
                    assert forall|a: int, b: int| 0 <= a < b < self.roots@.len() implies self.roots@[a].0 != self.roots@[b].0 by {
                        let a2 = if a < i { a } else { a + 1 };
                        let b2 = if b < i { b } else { b + 1 };
                        assert(self.roots@[a] == before[a2] && self.roots@[b] == before[b2]);
                    }
                }
                Some(e)
            },
            None => None,
        }
    }

    pub fn clear(&mut self)
        requires
            old(self).wf(),
        ensures
            final(self).wf(),
            final(self).roots().len() == 0,
            final(self).is_stopped() == old(self).is_stopped(),
    {
        self.roots.clear();
        self.counts = BehaviorCounts::new();
        assert forall|b: ElectionBehavior| self.counts.spec_count(b) == count_of(self.roots@, b) by {
            reveal_with_fuel(Seq::<_>::filter, 1);
        }
    }

    /// The counts reported about the container.
    pub fn info(&self, config: &ActiveElectionsConfig) -> (r: ActiveElectionsInfo)
        requires
            self.wf(),
        ensures
            r.max_queue == config.size,
            r.total == self.roots().len(),
            r.priority == count_of(self.roots(), ElectionBehavior::Priority),
            r.hinted == count_of(self.roots(), ElectionBehavior::Hinted),
            r.optimistic == count_of(self.roots(), ElectionBehavior::Optimistic),
    {
        ActiveElectionsInfo {
            max_queue: config.size,
            total: self.roots.len(),
            priority: self.counts.count_by_behavior(ElectionBehavior::Priority),
            hinted: self.counts.count_by_behavior(ElectionBehavior::Hinted),
            optimistic: self.counts.count_by_behavior(ElectionBehavior::Optimistic),
        }
    }

    /// The roots of the active elections, in the order they started, at most `max` of
    /// them (all when `max` is zero).
    pub fn list_active(&self, max: usize) -> (r: Vec<QualifiedRoot>)
        ensures
            r@ == self.roots().take(if max == 0 || max > self.roots().len() { self.roots().len() as int } else { max as int })
                .map_values(|e: (QualifiedRoot, ElectionBehavior, E)| e.0),
    {
        let n = if max == 0 || max > self.roots.len() { self.roots.len() } else { max };
        let mut r: Vec<QualifiedRoot> = Vec::new();
        let mut i: usize = 0;
        while i < n
            invariant
                i <= n <= self.roots@.len(),
                r@ =~= self.roots@.take(i as int).map_values(|e: (QualifiedRoot, ElectionBehavior, E)| e.0),
            decreases n - i,
        {
            r.push(self.roots[i].0);
            i = i + 1;
        }
        r
    }
}

proof fn lemma_count_le_len<E>(s: Seq<(QualifiedRoot, ElectionBehavior, E)>, b: ElectionBehavior)
    ensures
        count_of(s, b) <= s.len(),
{
    s.lemma_filter_len(|e: (QualifiedRoot, ElectionBehavior, E)| e.1 == b);
}

proof fn lemma_count_single<E>(x: (QualifiedRoot, ElectionBehavior, E), b: ElectionBehavior)
    ensures
        count_of(seq![x], b) == (if x.1 == b { 1nat } else { 0nat }),
{
    reveal_with_fuel(Seq::<_>::filter, 2);
    assert(seq![x].drop_last() =~= Seq::<(QualifiedRoot, ElectionBehavior, E)>::empty());
}

proof fn lemma_count_split<E>(s: Seq<(QualifiedRoot, ElectionBehavior, E)>, i: int, b: ElectionBehavior)
    requires
        0 <= i < s.len(),
    ensures
        count_of(s, b) == count_of(s.remove(i), b) + (if s[i].1 == b { 1nat } else { 0nat }),
{
    let pre = s.subrange(0, i);
    let post = s.subrange(i + 1, s.len() as int);
    assert(s =~= pre + seq![s[i]] + post);
    assert(s.remove(i) =~= pre + post);
    let p = |e: (QualifiedRoot, ElectionBehavior, E)| e.1 == b;
    Seq::filter_distributes_over_add(pre + seq![s[i]], post, p);
    Seq::filter_distributes_over_add(pre, seq![s[i]], p);
    Seq::filter_distributes_over_add(pre, post, p);
    lemma_count_single(s[i], b);
}

proof fn lemma_count_remove<E>(s: Seq<(QualifiedRoot, ElectionBehavior, E)>, i: int)
    requires
        0 <= i < s.len(),
    ensures
        count_of(s, s[i].1) > 0,
        count_of(s.remove(i), s[i].1) == count_of(s, s[i].1) - 1,
        forall|b: ElectionBehavior| b != s[i].1 ==> count_of(s.remove(i), b) == count_of(s, b),
{
    lemma_count_split(s, i, s[i].1);
    assert forall|b: ElectionBehavior| b != s[i].1 implies count_of(s.remove(i), b) == count_of(s, b) by {
        lemma_count_split(s, i, b);
    }
}

/// The number of elections of all behaviors together is the number of elections.
pub proof fn lemma_counts_sum_to_total<E>(s: Seq<(QualifiedRoot, ElectionBehavior, E)>)
    ensures
        count_of(s, ElectionBehavior::Manual) + count_of(s, ElectionBehavior::Priority)
            + count_of(s, ElectionBehavior::Hinted) + count_of(s, ElectionBehavior::Optimistic) == s.len(),
    decreases s.len(),
{
    reveal_with_fuel(Seq::<_>::filter, 1);
    if s.len() > 0 {
        lemma_counts_sum_to_total(s.drop_last());
    }
}

} // verus!
