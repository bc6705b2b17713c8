//! Retention: when a held record has expired, and the sweep that purges the
//! expired ones.

use vstd::prelude::*;

use crate::registry::{DeletionRecord, RecordModel, Registry};

verus! {

/// How long a file stays in holding before it may be purged: 24 hours.
pub const RETENTION_SECS: u64 = 86400;

/// How long the sweeper sleeps between passes.
pub const SWEEP_INTERVAL_SECS: u64 = 60;

/// A record created at `created_at` is expired at `now` when it has been held
/// for at least `ttl` seconds.
pub open spec fn is_expired(created_at: u64, now: u64, ttl: u64) -> bool {
    now as int - created_at as int >= ttl as int
}

/// The keys of `m` whose records are expired at `now`.
pub open spec fn expired_set(m: Map<Seq<char>, RecordModel>, now: u64, ttl: u64) -> Set<Seq<char>> {
    m.dom().filter(|k: Seq<char>| is_expired(m[k].created_at, now, ttl))
}

/// Whether a record created at `created_at` has expired at `now`. A clock
/// that reads earlier than the creation time gives an age of zero.
pub fn is_expired_at(created_at: u64, now: u64, ttl: u64) -> (r: bool)
    ensures
        r == is_expired(created_at, now, ttl),
{
    now >= created_at && now - created_at >= ttl
}

/// Whether `k` is among the first `n` of `keys`.
spec fn among(keys: Seq<String>, n: int, k: Seq<char>) -> bool {
    exists|j: int| 0 <= j < n && #[trigger] keys[j]@ == k
}

/// Membership in the expired set.
pub broadcast proof fn lemma_expired_member(m: Map<Seq<char>, RecordModel>, now: u64, ttl: u64, k: Seq<char>)
    ensures
        #[trigger] expired_set(m, now, ttl).contains(k) == (m.contains_key(k) && is_expired(
            m[k].created_at,
            now,
            ttl,
        )),
{
}

/// The expired records of a finite map are finitely many.
pub proof fn lemma_expired_finite(m: Map<Seq<char>, RecordModel>, now: u64, ttl: u64)
    requires
        m.dom().finite(),
    ensures
        expired_set(m, now, ttl).finite(),
{
    m.dom().lemma_len_filter(|k: Seq<char>| is_expired(m[k].created_at, now, ttl));
}

/// A list of distinct keys that holds exactly the members of `ex` has as
/// many items as `ex`, and a key is among them when it is in `ex`.
proof fn lemma_keys_cover(keys: Seq<String>, ex: Set<Seq<char>>)
    requires
        ex.finite(),
        forall|j: int| 0 <= j < keys.len() ==> ex.contains(#[trigger] keys[j]@),
        forall|k: Seq<char>| #[trigger] ex.contains(k) ==> exists|p: int|
            0 <= p < keys.len() && #[trigger] keys[p]@ == k,
        forall|p: int, q: int| 0 <= p < q < keys.len() ==> #[trigger] keys[p]@ != #[trigger] keys[q]@,
    ensures
        forall|k: Seq<char>| #[trigger] among(keys, keys.len() as int, k) == ex.contains(k),
        keys.len() == ex.len(),
{
    assert forall|k: Seq<char>| #[trigger] among(keys, keys.len() as int, k) == ex.contains(k) by {
        if ex.contains(k) {
            let p = choose|p: int| 0 <= p < keys.len() && #[trigger] keys[p]@ == k;
        }
        if among(keys, keys.len() as int, k) {
            let j = choose|j: int| 0 <= j < keys.len() && #[trigger] keys[j]@ == k;
        }
    }
    let ks = keys.map_values(|s: String| s@);
    assert(ks.to_set() =~= ex) by {
        assert forall|k: Seq<char>| ex.contains(k) implies ks.contains(k) by {
            let p = choose|p: int| 0 <= p < keys.len() && #[trigger] keys[p]@ == k;
            assert(ks[p] == k);
        }
    }
    assert(ks.no_duplicates());
    ks.unique_seq_to_set();
}

/// One sweep pass at `now`: removes every record held for at least
/// `RETENTION_SECS` and hands back the removed records, whose holding files
/// are then due for purging, each beside the key it was held under. Records
/// that have not expired stay as they are.
pub fn sweep_pass(registry: &mut Registry, now: u64) -> (purged: Vec<(String, DeletionRecord)>)
    requires
        old(registry).wf(),
    ensures
        final(registry).wf(),
        final(registry)@ == old(registry)@.remove_keys(expired_set(old(registry)@, now, RETENTION_SECS)),
        forall|i: int| #![trigger purged@[i]] 0 <= i < purged@.len() ==>
            expired_set(old(registry)@, now, RETENTION_SECS).contains(purged@[i].0@)
                && purged@[i].1@ == old(registry)@[purged@[i].0@],
        forall|k: Seq<char>| #[trigger] expired_set(old(registry)@, now, RETENTION_SECS).contains(k)
            ==> exists|i: int| 0 <= i < purged@.len() && #[trigger] purged@[i].0@ == k,
        purged@.len() == expired_set(old(registry)@, now, RETENTION_SECS).len(),
{
    broadcast use lemma_expired_member;

    let ghost m0 = registry@;
    let ghost ex = expired_set(m0, now, RETENTION_SECS);
    proof {
        registry.lemma_dom_finite();
    }
    let keys = registry.snapshot_expired(now, RETENTION_SECS);
    let mut purged: Vec<(String, DeletionRecord)> = Vec::new();
    let mut i: usize = 0;
    while i < keys.len()
        invariant
            registry.wf(),
            ex == expired_set(m0, now, RETENTION_SECS),
            i <= keys@.len(),
            purged@.len() == i,
            forall|j: int| 0 <= j < keys@.len() ==> ex.contains(#[trigger] keys@[j]@),
            forall|p: int, q: int| 0 <= p < q < keys@.len() ==> #[trigger] keys@[p]@ != #[trigger] keys@[q]@,
            forall|j: int| 0 <= j < i ==> #[trigger] purged@[j].0@ == keys@[j]@ && purged@[j].1@ == m0[keys@[j]@],
            forall|k: Seq<char>| #[trigger] registry@.contains_key(k) == (m0.contains_key(k) && !among(keys@, i as int, k)),
            forall|k: Seq<char>| #[trigger] registry@.contains_key(k) ==> registry@[k] == m0[k],
        decreases keys@.len() - i,
    {
        proof {
            if among(keys@, i as int, keys@[i as int]@) {
                let j = choose|j: int| 0 <= j < i && #[trigger] keys@[j]@ == keys@[i as int]@;
                assert(keys@[j]@ != keys@[i as int]@);
            }
            lemma_expired_member(m0, now, RETENTION_SECS, keys@[i as int]@);
            assert(registry@.contains_key(keys@[i as int]@));
        }
        let removed = registry.remove(&keys[i]);
        match removed {
            Some(r) => {
                purged.push((keys[i].clone(), r));
            },
            None => {},
        }
        proof {
            assert forall|k: Seq<char>| #[trigger] registry@.contains_key(k) == (m0.contains_key(k) && !among(keys@, i + 1, k)) by {
                if among(keys@, i + 1, k) && k != keys@[i as int]@ {
                    let j = choose|j: int| 0 <= j < i + 1 && #[trigger] keys@[j]@ == k;
                    assert(among(keys@, i as int, k));
                }
                if k == keys@[i as int]@ {
                    assert(among(keys@, i + 1, k));
                }
            }
            assert(purged@[i as int].1@ == m0[keys@[i as int]@]);
        }
        i += 1;
    }
    proof {
        registry.lemma_dom_finite();
        lemma_expired_finite(m0, now, RETENTION_SECS);
        lemma_keys_cover(keys@, ex);
        assert(registry@ =~= m0.remove_keys(ex));
        assert forall|k: Seq<char>| #[trigger] ex.contains(k) implies exists|p: int|
            0 <= p < purged@.len() && #[trigger] purged@[p].0@ == k by {
            let p = choose|p: int| 0 <= p < keys@.len() && #[trigger] keys@[p]@ == k;
            assert(purged@[p].0@ == k);
        }
    }
    purged
}

/// A record held exactly `RETENTION_SECS` is expired; one held a second less
/// is not.
pub proof fn lemma_retention_boundary(created_at: u64, now: u64)
    ensures
        now as int == created_at as int + RETENTION_SECS as int ==> is_expired(created_at, now, RETENTION_SECS),
        now as int == created_at as int + RETENTION_SECS as int - 1 ==> !is_expired(created_at, now, RETENTION_SECS),
{
}

/// Where the background sweeper stands.
#[derive(Clone, Copy, Debug, PartialEq, Eq, Structural)]
pub enum SweeperState {
    /// Sleeping until the next pass.
    Idle,
    /// Running a pass.
    Sweeping,
    /// Done for good.
    Stopped,
}

/// What the sweeper's driver observed.
#[derive(Clone, Copy, Debug, PartialEq, Eq, Structural)]
pub enum SweeperEvent {
    /// The sleep between passes ran out.
    IntervalElapsed,
    /// The stop signal was seen.
    StopRequested,
    /// The pass that was running has completed.
    PassFinished,
}

/// What the driver is to do next.
#[derive(Clone, Copy, Debug, PartialEq, Eq, Structural)]
pub enum SweeperAction {
    /// Sleep for `SWEEP_INTERVAL_SECS`, waking early on a stop signal.
    Wait,
    /// Run one sweep pass.
    Sweep,
    /// Keep on with what is in progress.
    Continue,
    /// Leave the loop.
    Exit,
}

/// The sweeper's transitions. A stop is seen only between passes: a pass
/// that is running is not interrupted, and a stopped sweeper stays stopped.
pub open spec fn sweeper_next(state: SweeperState, event: SweeperEvent) -> (SweeperState, SweeperAction) {
    match (state, event) {
        (SweeperState::Stopped, _) => (SweeperState::Stopped, SweeperAction::Exit),
        (SweeperState::Idle, SweeperEvent::IntervalElapsed) => (SweeperState::Sweeping, SweeperAction::Sweep),
        (SweeperState::Idle, SweeperEvent::StopRequested) => (SweeperState::Stopped, SweeperAction::Exit),
        (SweeperState::Idle, SweeperEvent::PassFinished) => (SweeperState::Idle, SweeperAction::Wait),
        (SweeperState::Sweeping, SweeperEvent::PassFinished) => (SweeperState::Idle, SweeperAction::Wait),
        (SweeperState::Sweeping, _) => (SweeperState::Sweeping, SweeperAction::Continue),
    }
}

/// Takes the sweeper one step: from its state and what was observed to its
/// next state and what to do.
pub fn sweeper_step(state: SweeperState, event: SweeperEvent) -> (r: (SweeperState, SweeperAction))
    ensures
        r == sweeper_next(state, event),
{
    match state {
        SweeperState::Stopped => (SweeperState::Stopped, SweeperAction::Exit),
        SweeperState::Idle => match event {
            SweeperEvent::IntervalElapsed => (SweeperState::Sweeping, SweeperAction::Sweep),
            SweeperEvent::StopRequested => (SweeperState::Stopped, SweeperAction::Exit),
            SweeperEvent::PassFinished => (SweeperState::Idle, SweeperAction::Wait),
        },
        SweeperState::Sweeping => match event {
            SweeperEvent::PassFinished => (SweeperState::Idle, SweeperAction::Wait),
            _ => (SweeperState::Sweeping, SweeperAction::Continue),
        },
    }
}

/// Once stopped, the sweeper never runs another pass, whatever it observes.
pub proof fn lemma_stopped_is_final(event: SweeperEvent)
    ensures
        sweeper_next(SweeperState::Stopped, event) == (SweeperState::Stopped, SweeperAction::Exit),
{
}

} // verus!
