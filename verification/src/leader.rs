//! Shard-leader election and the chain-follower gate.
//!
//! Each shard is guarded by a cluster lease with a time-to-live; every
//! candidate pod tries to acquire or renew it on a fixed interval and
//! remembers the outcome in a leadership flag.  A renewal error leaves the
//! flag as it was — leadership falls off only through the lease's
//! time-to-live.  The chain follower runs only while the flag is set; a
//! stale flag is bounded by one renewal interval and tolerated.
//!
//! `LeaseState` models the cluster lease's contract: at most one holder,
//! renewal by the holder, acquisition by anyone once the lease expires.
//! The mutual-exclusion and failover laws below are proved of that model.

use vstd::prelude::*;
use vstd::string::StringExecFns;
use crate::strutil::str_eq;

verus! {

/// The identity a candidate holds the lease under.
pub fn holder_identity(shard: &str, pod: &str) -> (r: String)
    ensures
        r@ == "shard-"@ + shard@ + "-pod-"@ + pod@,
{
    let mut s = String::from_str("shard-");
    s.append(shard);
    s.append("-pod-");
    s.append(pod);
    proof {
        assert(s@ =~= "shard-"@ + shard@ + "-pod-"@ + pod@);
    }
    s
}

/// One pod's leadership flag, driven by renewal outcomes.
pub struct LeaderFlag {
    is_leader: bool,
}

impl LeaderFlag {
    /// Does this pod currently believe it leads?
    pub closed spec fn leading(&self) -> bool {
        self.is_leader
    }

    /// A pod starts as a follower.
    pub fn new() -> (r: Self)
        ensures
            !r.leading(),
    {
        LeaderFlag { is_leader: false }
    }

    /// Records one renewal attempt's outcome.  A successful attempt stores
    /// whether the lease was held; a failed attempt changes nothing — the
    /// previous belief stands until the lease's time-to-live settles it.
    pub fn on_renewal(&mut self, outcome: Option<bool>)
        ensures
            match outcome {
                Some(acquired) => final(self).leading() == acquired,
                None => final(self).leading() == old(self).leading(),
            },
    {
        match outcome {
            Some(acquired) => {
                self.is_leader = acquired;
            },
            None => {},
        }
    }

    /// Reads the flag.
    pub fn is_leader(&self) -> (r: bool)
        ensures
            r == self.leading(),
    {
        self.is_leader
    }
}

/// What the chain-sync gate does next.
pub enum GateStep {
    /// Not the leader: sleep one renewal interval and look again.
    StandBy,
    /// The leader: run the chain follower.
    RunFollower,
}

/// What the chain-sync loop does next: the follower runs exactly while
/// the pod believes it leads.
pub fn gate_step(is_leader: bool) -> (s: GateStep)
    ensures
        is_leader <==> s is RunFollower,
{
    if is_leader {
        GateStep::RunFollower
    } else {
        GateStep::StandBy
    }
}

/// The cluster lease for one shard: its holder and when its grant expires.
/// This models the lease library's contract; the cluster's lease object is
/// the real arbiter.
pub struct LeaseState {
    holder: Option<String>,
    expires_at_ms: u64,
}

/// May `candidate` take or keep the lease at `now_ms`?  Yes when the lease
/// is unheld, already its own, or expired.
pub open spec fn can_acquire(
    holder: Option<Seq<char>>,
    expires_at_ms: u64,
    candidate: Seq<char>,
    now_ms: u64,
) -> bool {
    match holder {
        None => true,
        Some(h) => h == candidate || expires_at_ms <= now_ms,
    }
}

impl LeaseState {
    /// The current holder's identity.
    pub closed spec fn holder_id(&self) -> Option<Seq<char>> {
        match self.holder {
            Some(h) => Some(h@),
            None => None,
        }
    }

    /// When the current grant expires.
    pub closed spec fn expiry(&self) -> u64 {
        self.expires_at_ms
    }

    /// An unheld lease.
    pub fn new() -> (r: Self)
        ensures
            r.holder_id() is None,
    {
        LeaseState { holder: None, expires_at_ms: 0 }
    }

    /// One acquire-or-renew attempt by `candidate` at `now_ms`: it takes
    /// the lease — for `ttl_ms` more milliseconds — exactly when the lease
    /// is unheld, its own, or expired; otherwise nothing changes.
    pub fn try_acquire_or_renew(&mut self, candidate: &str, now_ms: u64, ttl_ms: u64) -> (acquired:
        bool)
        requires
            now_ms + ttl_ms <= u64::MAX,
        ensures
            acquired == can_acquire(
                old(self).holder_id(),
                old(self).expiry(),
                candidate@,
                now_ms,
            ),
            acquired ==> final(self).holder_id() == Some(candidate@) && final(self).expiry()
                == now_ms + ttl_ms,
            !acquired ==> final(self).holder_id() == old(self).holder_id() && final(self).expiry()
                == old(self).expiry(),
    {
        let take_it: bool = match &self.holder {
            None => true,
            Some(h) => str_eq(h.as_str(), candidate) || self.expires_at_ms <= now_ms,
        };
        if take_it {
            self.holder = Some(String::from_str(candidate));
            self.expires_at_ms = now_ms + ttl_ms;
        }
        take_it
    }

    /// Releases the lease if `candidate` holds it; anyone else's release
    /// changes nothing.
    pub fn step_down(&mut self, candidate: &str)
        ensures
            old(self).holder_id() == Some(candidate@) ==> final(self).holder_id() is None,
            old(self).holder_id() != Some(candidate@) ==> final(self).holder_id() == old(
                self,
            ).holder_id() && final(self).expiry() == old(self).expiry(),
    {
        let release: bool = match &self.holder {
            Some(h) => str_eq(h.as_str(), candidate),
            None => false,
        };
        if release {
            self.holder = None;
        }
    }
}

/// Law (mutual exclusion): while one candidate holds an unexpired lease,
/// no other candidate can acquire it — at most one leader per shard.
pub proof fn lemma_lease_mutual_exclusion(
    holder: Seq<char>,
    expires_at_ms: u64,
    other: Seq<char>,
    now_ms: u64,
)
    requires
        other != holder,
        now_ms < expires_at_ms,
    ensures
        !can_acquire(Some(holder), expires_at_ms, other, now_ms),
{
}

/// Law (failover bound): once the holder's grant has expired — it stopped
/// renewing — any candidate acquires the lease on its next attempt.  With
/// renewal every `renew` milliseconds, a standby becomes leader within
/// time-to-live plus one renewal interval of the holder's failure.
pub proof fn lemma_lease_failover(
    holder: Option<Seq<char>>,
    expires_at_ms: u64,
    candidate: Seq<char>,
    now_ms: u64,
)
    requires
        expires_at_ms <= now_ms,
    ensures
        can_acquire(holder, expires_at_ms, candidate, now_ms),
{
}

} // verus!
