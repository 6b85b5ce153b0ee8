//! The per-path admission breaker: adaptive throttling in the SRE style.
//! Over a sliding window of request outcomes, with `requests` calls seen,
//! `accepts` of them successful and `k` the aggressiveness factor, a new
//! request is refused with probability
//! `max(0, requests - k * accepts) / (requests + 1)`.

use rand::Rng;
use vstd::prelude::*;

verus! {

/// How many of the recorded outcomes were successes.
pub open spec fn accepts_of(s: Seq<bool>) -> nat
    decreases s.len(),
{
    if s.len() == 0 {
        0
    } else {
        accepts_of(s.drop_last()) + (if s.last() {
            1nat
        } else {
            0nat
        })
    }
}

/// The numerator of the rejection probability: how far the window's demand
/// runs ahead of what its successes justify.
pub open spec fn reject_excess(requests: int, accepts: int, k: int) -> int {
    if requests > k * accepts {
        requests - k * accepts
    } else {
        0
    }
}

/// The window after recording one more outcome: the oldest entry leaves
/// once `cap` outcomes are held.
pub open spec fn window_push(s: Seq<bool>, ok: bool, cap: nat) -> Seq<bool> {
    if s.len() < cap {
        s.push(ok)
    } else {
        s.skip(1).push(ok)
    }
}

/// Relies on rand's `gen_range` over `0..n`: a sample strictly below `n`.
#[verifier::external_body]
fn sample_below(n: u64) -> (r: u64)
    requires
        n > 0,
    ensures
        r < n,
{
    rand::thread_rng().gen_range(0..n)
}

/// One path's adaptive throttle: a sliding window of request outcomes and
/// the aggressiveness factor `k`.
pub struct SreBreaker {
    window: Vec<bool>,
    capacity: usize,
    k_factor: u64,
}

impl View for SreBreaker {
    type V = Seq<bool>;

    closed spec fn view(&self) -> Seq<bool> {
        self.window@
    }
}

impl SreBreaker {
    /// The breaker's bounds are sane and the window respects them.
    pub closed spec fn wf(&self) -> bool {
        &&& 1 <= self.capacity <= 1000000
        &&& 1 <= self.k_factor <= 1024
        &&& self.window@.len() <= self.capacity
    }

    /// The aggressiveness factor.
    pub closed spec fn k(&self) -> u64 {
        self.k_factor
    }

    /// How many outcomes the window holds at most.
    pub closed spec fn cap(&self) -> usize {
        self.capacity
    }

    /// A fresh breaker: an empty window.
    pub fn new(k_factor: u64, capacity: usize) -> (r: SreBreaker)
        requires
            1 <= k_factor <= 1024,
            1 <= capacity <= 1000000,
        ensures
            r.wf(),
            r@ == Seq::<bool>::empty(),
            r.k() == k_factor,
            r.cap() == capacity,
    {
        SreBreaker { window: Vec::new(), capacity, k_factor }
    }

    /// The customary breaker: factor 2 over a window of 100 outcomes.
    pub fn default_breaker() -> (r: SreBreaker)
        ensures
            r.wf(),
            r@ == Seq::<bool>::empty(),
            r.k() == 2,
            r.cap() == 100,
    {
        Self::new(2, 100)
    }

    /// Records one terminal outcome, sliding the window.
    pub fn record(&mut self, ok: bool)
        requires
            old(self).wf(),
        ensures
            final(self).wf(),
            final(self)@ == window_push(old(self)@, ok, old(self).cap() as nat),
            final(self).k() == old(self).k(),
            final(self).cap() == old(self).cap(),
    {
        if self.window.len() == self.capacity {
            self.window.remove(0);
            proof {
                assert(self.window@ =~= old(self)@.skip(1));
            }
        }
        self.window.push(ok);
    }

    /// Records a successful response.
    pub fn mark_success(&mut self)
        requires
            old(self).wf(),
        ensures
            final(self).wf(),
            final(self)@ == window_push(old(self)@, true, old(self).cap() as nat),
            final(self).k() == old(self).k(),
            final(self).cap() == old(self).cap(),
    {
        self.record(true);
    }

    /// Records a failed, errored or missing response.
    pub fn mark_failed(&mut self)
        requires
            old(self).wf(),
        ensures
            final(self).wf(),
            final(self)@ == window_push(old(self)@, false, old(self).cap() as nat),
            final(self).k() == old(self).k(),
            final(self).cap() == old(self).cap(),
    {
        self.record(false);
    }

    fn count_accepts(&self) -> (r: u64)
        requires
            self.wf(),
        ensures
            r == accepts_of(self@),
            r <= self@.len(),
    {
        let mut r: u64 = 0;
        let mut i: usize = 0;
        proof {
            assert(self@.subrange(0, 0) =~= Seq::<bool>::empty());
        }
        while i < self.window.len()
            invariant
                i <= self@.len(),
                self@.len() <= 1000000,
                r == accepts_of(self@.subrange(0, i as int)),
                r <= i,
            decreases self@.len() - i,
        {
            proof {
                assert(self@.subrange(0, i as int + 1).drop_last() =~= self@.subrange(0, i as int));
                assert(self@.subrange(0, i as int + 1).last() == self@[i as int]);
            }
            if self.window[i] {
                r = r + 1;
            }
            i = i + 1;
        }
        proof {
            assert(self@.subrange(0, self@.len() as int) =~= self@);
        }
        r
    }

    /// Admits or refuses one request. A sample is drawn uniformly below
    /// `requests + 1` and judged by [`should_reject`], so the request is
    /// refused with probability
    /// `reject_excess(requests, accepts, k) / (requests + 1)`: whenever the
    /// excess is zero — in particular on a fresh breaker, and as long as
    /// every recorded outcome succeeded — the request is admitted for
    /// certain, and every refusal witnesses a positive excess.
    pub fn allow(&self) -> (r: bool)
        requires
            self.wf(),
        ensures
            reject_excess(self@.len() as int, accepts_of(self@) as int, self.k() as int) == 0 ==> r,
            !r ==> reject_excess(self@.len() as int, accepts_of(self@) as int, self.k() as int)
                > 0,
    {
        let requests: u64 = self.window.len() as u64;
        let accepts: u64 = self.count_accepts();
        let sample = sample_below(requests + 1);
        !should_reject(requests, accepts, self.k_factor, sample)
    }
}

/// The deterministic half of admission: whether the drawn `sample` falls
/// under the rejection excess of the window's counters.
pub fn should_reject(requests: u64, accepts: u64, k: u64, sample: u64) -> (r: bool)
    requires
        k <= 1024,
        accepts <= 1000000,
    ensures
        r == (sample < reject_excess(requests as int, accepts as int, k as int)),
{
    proof {
        assert(k * accepts <= 1024 * 1000000) by (nonlinear_arith)
            requires
                k <= 1024 && accepts <= 1000000,
        ;
    }
    if k * accepts >= requests {
        false
    } else {
        sample < requests - k * accepts
    }
}

/// Recording one more failure never lowers the rejection probability:
/// with the excess over one more request weighed against the old excess
/// over one more request each, the cross products order the two fractions.
pub proof fn lemma_reject_monotone_in_failures(requests: int, accepts: int, k: int)
    requires
        0 <= accepts <= requests,
        1 <= k,
    ensures
        reject_excess(requests + 1, accepts, k) * (requests + 1) >= reject_excess(
            requests,
            accepts,
            k,
        ) * (requests + 2),
{
    let e0 = reject_excess(requests, accepts, k);
    let e1 = reject_excess(requests + 1, accepts, k);
    if requests > k * accepts {
        assert(e1 == e0 + 1);
        assert((e0 + 1) * (requests + 1) >= e0 * (requests + 2)) by (nonlinear_arith)
            requires
                0 <= e0 <= requests,
        ;
    } else {
        assert(e0 == 0);
        assert(e1 * (requests + 1) >= 0) by (nonlinear_arith)
            requires
                e1 >= 0 && requests >= 0,
        ;
    }
}

/// Recording one more success never raises the rejection probability,
/// stated over the same cross products.
pub proof fn lemma_reject_monotone_in_successes(requests: int, accepts: int, k: int)
    requires
        0 <= accepts <= requests,
        1 <= k,
    ensures
        reject_excess(requests + 1, accepts + 1, k) * (requests + 1) <= reject_excess(
            requests,
            accepts,
            k,
        ) * (requests + 2),
{
    assert(k * (accepts + 1) == k * accepts + k) by (nonlinear_arith);
    let e0 = reject_excess(requests, accepts, k);
    let e1 = reject_excess(requests + 1, accepts + 1, k);
    assert(e1 <= e0);
    assert(0 <= e1);
    assert(e1 * (requests + 1) <= e0 * (requests + 2)) by (nonlinear_arith)
        requires
            0 <= e1 <= e0 && requests >= 0,
    ;
}

/// A window of nothing but successes never rejects: its excess is zero.
pub proof fn lemma_all_successes_never_reject(s: Seq<bool>, k: int)
    requires
        1 <= k,
        forall|i: int| 0 <= i < s.len() ==> s[i],
    ensures
        reject_excess(s.len() as int, accepts_of(s) as int, k) == 0,
    decreases s.len(),
{
    lemma_accepts_all_true(s);
    let a = accepts_of(s) as int;
    assert(k * a >= a) by (nonlinear_arith)
        requires
            k >= 1 && a >= 0,
    ;
}

proof fn lemma_accepts_all_true(s: Seq<bool>)
    requires
        forall|i: int| 0 <= i < s.len() ==> s[i],
    ensures
        accepts_of(s) == s.len(),
    decreases s.len(),
{
    if s.len() != 0 {
        assert(forall|i: int| 0 <= i < s.drop_last().len() ==> s.drop_last()[i]);
        lemma_accepts_all_true(s.drop_last());
        assert(s.last());
    }
}

/// Whether a response counts as a success for the breaker: a status is
/// present and its code is zero, the transport's OK. A missing status, a
/// non-zero code, or an erroring handler all count as failures.
pub fn response_outcome(grpc_code: Option<i64>) -> (r: bool)
    ensures
        r == (grpc_code matches Some(c) && c == 0),
{
    match grpc_code {
        Some(c) => c == 0,
        None => false,
    }
}

/// The per-path breaker map, shared by every request task. The breakers
/// live behind a sharded concurrent map, so a momentary window can be
/// promised nothing; what [`SreBreaker`] guarantees of every window is
/// proved on the breaker itself, and runs inside the map's scoped-access
/// closures.
#[verifier::external_body]
pub struct BreakerGroup {
    map: std::sync::Arc<dashmap::DashMap<String, SreBreaker>>,
}

impl BreakerGroup {
    /// Relies on dashmap's `DashMap::new`: an empty map.
    #[verifier::external_body]
    pub fn new() -> BreakerGroup {
        BreakerGroup { map: std::sync::Arc::new(dashmap::DashMap::new()) }
    }

    /// Relies on dashmap's sharded `entry` API: makes sure the path has a
    /// breaker — first writer wins, racers get the same instance. The only
    /// breaker ever stored is the library's own fresh default.
    #[verifier::external_body]
    fn ensure_breaker(&self, path: &str) {
        self.map.entry(path.to_owned()).or_insert_with(SreBreaker::default_breaker);
    }

    /// Relies on dashmap's `view`: runs the verified admission decision on
    /// the path's breaker under its shard lock; nothing when the path has
    /// no breaker.
    #[verifier::external_body]
    fn view_allow(&self, path: &str) -> Option<bool> {
        self.map.view(path, |_, breaker| breaker.allow())
    }

    /// Relies on dashmap's `alter`: runs the verified recording on the
    /// path's breaker under its shard lock; nothing when the path has no
    /// breaker.
    #[verifier::external_body]
    fn alter_record(&self, path: &str, ok: bool) {
        self.map.alter(
            path,
            |_, mut breaker| {
                breaker.record(ok);
                breaker
            },
        );
    }

    /// Asks the path's breaker to admit one request, creating the breaker
    /// on first use. A path that has no breaker even so admits, as a fresh
    /// breaker would.
    pub fn allow(&self, path: &str) -> bool {
        self.ensure_breaker(path);
        match self.view_allow(path) {
            Some(admitted) => admitted,
            None => true,
        }
    }

    /// Records one terminal outcome in the path's breaker, creating the
    /// breaker on first use.
    pub fn record(&self, path: &str, ok: bool) {
        self.ensure_breaker(path);
        self.alter_record(path, ok);
    }

    /// Relies on `Arc::clone`: another handle to the same shared map.
    #[verifier::external_body]
    pub fn duplicate(&self) -> BreakerGroup {
        BreakerGroup { map: std::sync::Arc::clone(&self.map) }
    }
}

/// The marker a server hands to the transport to install per-path load
/// shedding: the middleware around it consults one [`BreakerGroup`] before
/// and after every forwarded request.
pub struct ServerSreBreaker;

} // verus!
