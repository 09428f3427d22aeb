//! Multi-window rate limiting for edge traffic.
//!
//! A tier declares one or more rates, each a window length and a request
//! limit.  The first request from a consumer installs one sliding-window
//! counter per declared rate; every request then lands one hit in every
//! counter, and the request passes only if no counter's window holds more
//! hits than its limit allows.  A consumer whose tier declares no rates is
//! allowed through.  Time enters as a millisecond clock value supplied by
//! the caller with each request.

use vstd::prelude::*;
use crate::strmap::StrMap;

verus! {

/// One declared rate: at most `limit` requests within any `interval_ms`
/// window.
#[derive(Clone, Copy)]
pub struct RateSpec {
    pub interval_ms: u64,
    pub limit: u64,
}

/// Is a hit at time `h` inside the window ending at `now`?
pub open spec fn in_window(h: u64, now: u64, interval: u64) -> bool {
    h <= now && now < h + interval
}

/// How many of `hits` fall inside the window ending at `now`.
pub open spec fn window_count(hits: Seq<u64>, now: u64, interval: u64) -> nat
    decreases hits.len(),
{
    if hits.len() == 0 {
        0
    } else {
        window_count(hits.drop_last(), now, interval) + (if in_window(
            hits.last(),
            now,
            interval,
        ) {
            1nat
        } else {
            0nat
        })
    }
}

/// Hits that all fall inside the window are all counted.
pub proof fn lemma_all_hits_counted(hits: Seq<u64>, now: u64, interval: u64)
    requires
        forall|k: int| 0 <= k < hits.len() ==> in_window(#[trigger] hits[k], now, interval),
    ensures
        window_count(hits, now, interval) == hits.len(),
    decreases hits.len(),
{
    if hits.len() > 0 {
        lemma_all_hits_counted(hits.drop_last(), now, interval);
    }
}

/// Hits that all predate the window are not counted at all.
pub proof fn lemma_no_hits_counted(hits: Seq<u64>, now: u64, interval: u64)
    requires
        forall|k: int| 0 <= k < hits.len() ==> #[trigger] hits[k] + interval <= now,
    ensures
        window_count(hits, now, interval) == 0,
    decreases hits.len(),
{
    if hits.len() > 0 {
        lemma_no_hits_counted(hits.drop_last(), now, interval);
    }
}

/// One sliding-window counter: a window length, a limit, and the hits still
/// relevant to the window.
pub struct WindowCounter {
    interval_ms: u64,
    limit: u64,
    hits: Vec<u64>,
}

impl WindowCounter {
    /// The window length.
    pub closed spec fn interval(&self) -> u64 {
        self.interval_ms
    }

    /// The request limit.
    pub closed spec fn limit_val(&self) -> u64 {
        self.limit
    }

    /// The recorded hit times.
    pub closed spec fn hits_seq(&self) -> Seq<u64> {
        self.hits@
    }

    /// A window is at least one millisecond long.
    pub closed spec fn wf(&self) -> bool {
        self.interval_ms >= 1
    }

    /// A fresh counter for one declared rate, with no hits yet.
    pub fn new(rate: RateSpec) -> (c: Self)
        requires
            rate.interval_ms >= 1,
        ensures
            c.wf(),
            c.interval() == rate.interval_ms,
            c.limit_val() == rate.limit,
            c.hits_seq() == Seq::<u64>::empty(),
    {
        WindowCounter { interval_ms: rate.interval_ms, limit: rate.limit, hits: Vec::new() }
    }

    /// Records a hit at `now` and decides it: admitted exactly when the
    /// window, this hit included, stays within the limit.  Hits outside the
    /// window are dropped, which never changes any window count at or after
    /// `now`.
    pub fn observe(self, now: u64) -> (r: (WindowCounter, bool))
        requires
            self.wf(),
        ensures
            r.0.wf(),
            r.0.interval() == self.interval(),
            r.0.limit_val() == self.limit_val(),
            window_count(r.0.hits_seq(), now, self.interval()) == window_count(
                self.hits_seq(),
                now,
                self.interval(),
            ) + 1,
            forall|k: int|
                0 <= k < r.0.hits_seq().len() ==> in_window(
                    #[trigger] r.0.hits_seq()[k],
                    now,
                    self.interval(),
                ),
            r.1 == (window_count(self.hits_seq(), now, self.interval()) + 1
                <= self.limit_val()),
    {
        let WindowCounter { interval_ms, limit, hits } = self;
        let mut kept: Vec<u64> = Vec::new();
        let mut j: usize = 0;
        while j < hits.len()
            invariant
                0 <= j <= hits@.len(),
                interval_ms >= 1,
                window_count(kept@, now, interval_ms) == window_count(
                    hits@.take(j as int),
                    now,
                    interval_ms,
                ),
                forall|k: int|
                    0 <= k < kept@.len() ==> in_window(#[trigger] kept@[k], now, interval_ms),
            decreases hits@.len() - j,
        {
            let h: u64 = hits[j];
            proof {
                assert(hits@.take(j + 1).drop_last() =~= hits@.take(j as int));
                assert(hits@.take(j + 1).last() == hits@[j as int]);
            }
            if h <= now && now - h < interval_ms {
                proof {
                    assert(kept@.push(h).drop_last() =~= kept@);
                }
                kept.push(h);
            }
            j = j + 1;
        }
        proof {
            assert(hits@.take(hits@.len() as int) =~= hits@);
            assert(kept@.push(now).drop_last() =~= kept@);
            assert(in_window(now, now, interval_ms));
        }
        kept.push(now);
        let count: usize = kept.len();
        proof {
            lemma_all_hits_counted(kept@, now, interval_ms);
        }
        let allowed: bool = count as u64 <= limit;
        (WindowCounter { interval_ms, limit, hits: kept }, allowed)
    }
}

/// Counters whose windows and limits mirror the declared rates, with no
/// hits recorded yet.
pub open spec fn fresh_for(cs: Seq<WindowCounter>, rates: Seq<RateSpec>) -> bool {
    &&& cs.len() == rates.len()
    &&& forall|j: int|
        0 <= j < cs.len() ==> (#[trigger] cs[j]).interval() == rates[j].interval_ms
            && cs[j].limit_val() == rates[j].limit && cs[j].hits_seq().len() == 0
}

/// `post` is `pre` with one hit at `now` recorded in every counter.
pub open spec fn observed_from(pre: Seq<WindowCounter>, post: Seq<WindowCounter>, now: u64) -> bool {
    &&& pre.len() == post.len()
    &&& forall|j: int|
        0 <= j < pre.len() ==> (#[trigger] post[j]).interval() == pre[j].interval()
            && post[j].limit_val() == pre[j].limit_val() && window_count(
            post[j].hits_seq(),
            now,
            pre[j].interval(),
        ) == window_count(pre[j].hits_seq(), now, pre[j].interval()) + 1
}

/// Do all counters admit one more hit at `now`?
pub open spec fn admits(cs: Seq<WindowCounter>, now: u64) -> bool {
    forall|j: int|
        0 <= j < cs.len() ==> window_count(
            (#[trigger] cs[j]).hits_seq(),
            now,
            cs[j].interval(),
        ) + 1 <= cs[j].limit_val()
}

/// All counters well formed.
pub open spec fn counters_wf(cs: Seq<WindowCounter>) -> bool {
    forall|j: int| 0 <= j < cs.len() ==> (#[trigger] cs[j]).wf()
}

/// Fresh counters, one per declared rate.
fn fresh_counters(rates: &Vec<RateSpec>) -> (cs: Vec<WindowCounter>)
    requires
        forall|j: int| 0 <= j < rates@.len() ==> (#[trigger] rates@[j]).interval_ms >= 1,
    ensures
        fresh_for(cs@, rates@),
        counters_wf(cs@),
{
    let mut cs: Vec<WindowCounter> = Vec::new();
    let mut j: usize = 0;
    while j < rates.len()
        invariant
            0 <= j <= rates@.len(),
            cs@.len() == j,
            forall|k: int| 0 <= k < rates@.len() ==> (#[trigger] rates@[k]).interval_ms >= 1,
            forall|k: int|
                0 <= k < j ==> (#[trigger] cs@[k]).interval() == rates@[k].interval_ms
                    && cs@[k].limit_val() == rates@[k].limit && cs@[k].hits_seq().len() == 0
                    && cs@[k].wf(),
        decreases rates@.len() - j,
    {
        cs.push(WindowCounter::new(rates[j]));
        j = j + 1;
    }
    cs
}

/// Records one hit at `now` in every counter; admitted only if every
/// counter stays within its limit.
fn observe_all(cs: Vec<WindowCounter>, now: u64) -> (r: (Vec<WindowCounter>, bool))
    requires
        counters_wf(cs@),
    ensures
        counters_wf(r.0@),
        observed_from(cs@, r.0@, now),
        r.1 == admits(cs@, now),
        forall|j: int, k: int|
            0 <= j < r.0@.len() && 0 <= k < (#[trigger] r.0@[j]).hits_seq().len() ==> in_window(
                #[trigger] r.0@[j].hits_seq()[k],
                now,
                r.0@[j].interval(),
            ),
{
    let mut rest = cs;
    let mut out: Vec<WindowCounter> = Vec::new();
    let mut ok: bool = true;
    while rest.len() > 0
        invariant
            out@.len() + rest@.len() == cs@.len(),
            rest@ =~= cs@.skip(out@.len() as int),
            counters_wf(cs@),
            counters_wf(out@),
            observed_from(cs@.take(out@.len() as int), out@, now),
            ok == admits(cs@.take(out@.len() as int), now),
            forall|j: int, k: int|
                0 <= j < out@.len() && 0 <= k < (#[trigger] out@[j]).hits_seq().len()
                    ==> in_window(#[trigger] out@[j].hits_seq()[k], now, out@[j].interval()),
        decreases rest@.len(),
    {
        let ghost n: int = out@.len() as int;
        let c = rest.remove(0);
        proof {
            assert(c == cs@[n]);
            assert(rest@ =~= cs@.skip(n + 1));
        }
        let (c2, a) = c.observe(now);
        let new_ok = ok && a;
        out.push(c2);
        proof {
            assert(cs@.take(n + 1).drop_last() =~= cs@.take(n));
            assert(observed_from(cs@.take(n + 1), out@, now)) by {
                assert(forall|j: int| 0 <= j < n ==> cs@.take(n + 1)[j] == cs@.take(n)[j]);
            }
            assert(new_ok == admits(cs@.take(n + 1), now)) by {
                assert(forall|j: int| 0 <= j < n ==> cs@.take(n + 1)[j] == cs@.take(n)[j]);
                assert(cs@.take(n + 1)[n] == cs@[n]);
                if new_ok {
                    assert forall|j: int| 0 <= j < n + 1 implies window_count(
                        (#[trigger] cs@.take(n + 1)[j]).hits_seq(),
                        now,
                        cs@.take(n + 1)[j].interval(),
                    ) + 1 <= cs@.take(n + 1)[j].limit_val() by {
                        if j < n {
                            assert(admits(cs@.take(n), now));
                            assert(cs@.take(n)[j] == cs@.take(n + 1)[j]);
                        }
                    }
                }
            }
        }
        ok = new_ok;
    }
    proof {
        assert(cs@.take(out@.len() as int) =~= cs@);
    }
    (out, ok)
}

/// The per-consumer rate-counter table: consumer key to installed counters.
pub struct RateLimiter {
    consumers: StrMap<Vec<WindowCounter>>,
}

impl RateLimiter {
    /// The counters installed for each consumer key.
    pub closed spec fn view(&self) -> Map<Seq<char>, Vec<WindowCounter>> {
        self.consumers.view()
    }

    pub closed spec fn wf(&self) -> bool {
        &&& self.consumers.wf()
        &&& forall|k: Seq<char>|
            self.consumers.view().contains_key(k) ==> counters_wf(
                (#[trigger] self.consumers.view()[k])@,
            )
    }

    /// An empty table: no consumer seen yet.
    pub fn new() -> (r: Self)
        ensures
            r.wf(),
            r.view() == Map::<Seq<char>, Vec<WindowCounter>>::empty(),
    {
        RateLimiter { consumers: StrMap::new() }
    }

    /// Decides one request from `key` at time `now` under the given declared
    /// rates.  No declared rates — no tier configured — means the request is
    /// allowed and nothing is recorded.  Otherwise the consumer's counters
    /// are installed on first sight, the hit lands in every counter, and the
    /// request passes exactly when every window stays within its limit.
    pub fn check(&mut self, key: &str, rates_opt: Option<&Vec<RateSpec>>, now: u64) -> (allowed:
        bool)
        requires
            old(self).wf(),
            match rates_opt {
                Some(rates) => forall|j: int|
                    0 <= j < rates@.len() ==> (#[trigger] rates@[j]).interval_ms >= 1,
                None => true,
            },
        ensures
            final(self).wf(),
            match rates_opt {
                None => allowed && final(self).view() == old(self).view(),
                Some(rates) => {
                    &&& final(self).view().contains_key(key@)
                    &&& forall|k: Seq<char>|
                        k != key@ ==> (#[trigger] final(self).view().contains_key(k) <==> old(
                            self,
                        ).view().contains_key(k)) && (old(self).view().contains_key(k)
                            ==> final(self).view()[k] == old(self).view()[k])
                    &&& if old(self).view().contains_key(key@) {
                        observed_from(
                            old(self).view()[key@]@,
                            final(self).view()[key@]@,
                            now,
                        ) && allowed == admits(old(self).view()[key@]@, now)
                    } else {
                        exists|pre: Seq<WindowCounter>|
                            fresh_for(pre, rates@) && observed_from(
                                pre,
                                #[trigger] final(self).view()[key@]@,
                                now,
                            ) && allowed == admits(pre, now)
                    }
                },
            },
    {
        let rates = match rates_opt {
            None => {
                return true;
            },
            Some(r) => r,
        };
        let cs = match self.consumers.take(key) {
            Some(cs) => cs,
            None => fresh_counters(rates),
        };
        let ghost pre: Seq<WindowCounter> = cs@;
        let (cs2, ok) = observe_all(cs, now);
        self.consumers.insert(key, cs2);
        proof {
            assert forall|k: Seq<char>|
                self.consumers.view().contains_key(k) implies counters_wf(
                (#[trigger] self.consumers.view()[k])@,
            ) by {
                if k != key@ {
                    assert(old(self).consumers.view().contains_key(k));
                    assert(self.consumers.view()[k] == old(self).consumers.view()[k]);
                }
            }
        }
        ok
    }
}

/// Law (limit reached): a counter whose window already holds `limit` hits
/// rejects the next request inside the window.
pub proof fn lemma_rate_limit_breach(c: WindowCounter, now: u64)
    requires
        forall|k: int|
            0 <= k < c.hits_seq().len() ==> in_window(#[trigger] c.hits_seq()[k], now,
                c.interval()),
        c.hits_seq().len() == c.limit_val(),
    ensures
        window_count(c.hits_seq(), now, c.interval()) + 1 > c.limit_val(),
{
    lemma_all_hits_counted(c.hits_seq(), now, c.interval());
}

/// Law (window elapsed): once every recorded hit is a full window in the
/// past, a counter with any positive limit admits the next request.
pub proof fn lemma_rate_limit_recovery(c: WindowCounter, now: u64)
    requires
        forall|k: int| 0 <= k < c.hits_seq().len() ==> #[trigger] c.hits_seq()[k] + c.interval()
            <= now,
        c.limit_val() >= 1,
    ensures
        window_count(c.hits_seq(), now, c.interval()) + 1 <= c.limit_val(),
{
    lemma_no_hits_counted(c.hits_seq(), now, c.interval());
}

} // verus!
