use vstd::prelude::*;

verus! {

/// The shared admission gate bounding the aggregate outbound request
/// rate: a token bucket at millitoken resolution. `rate` tokens arrive
/// per second — one millitoken per millisecond per token of rate — the
/// bucket holds at most `capacity` tokens, and one admission costs one
/// token. All concurrently running workers of a cycle draw from one
/// bucket.
pub struct TokenBucket {
    pub rate: u32,
    pub capacity: u32,
    pub millitokens: u64,
    pub at_ms: u64,
}

/// The bucket's content after refilling from `at` to `now`: `rate`
/// millitokens per elapsed millisecond, clipped at the capacity.
pub open spec fn refill_spec(tokens: int, at: int, rate: int, cap: int, now: int) -> int {
    let grown = tokens + (now - at) * rate;
    if grown > cap * 1000 {
        cap * 1000
    } else {
        grown
    }
}

impl TokenBucket {
    /// A sound bucket: a positive rate, and never more content than the
    /// capacity allows.
    pub open spec fn wf(&self) -> bool {
        &&& self.rate >= 1
        &&& self.capacity >= 1
        &&& self.millitokens as int <= self.capacity as int * 1000
    }

    /// A fresh bucket for a sustained rate of `rate` admissions per
    /// second: it bursts up to `rate` admissions and starts full.
    pub fn new(rate: u32, now_ms: u64) -> (b: TokenBucket)
        requires
            rate >= 1,
        ensures
            b.wf(),
            b.rate == rate,
            b.capacity == rate,
            b.at_ms == now_ms,
            b.millitokens == rate as u64 * 1000,
    {
        TokenBucket { rate, capacity: rate, millitokens: rate as u64 * 1000, at_ms: now_ms }
    }

    /// One admission attempt at `now_ms`: refills the bucket, then either
    /// admits, taking one token, or returns how many milliseconds must
    /// pass before a token has accrued.
    pub fn try_acquire(&mut self, now_ms: u64) -> (r: Option<u64>)
        requires
            old(self).wf(),
            now_ms >= old(self).at_ms,
        ensures
            final(self).wf(),
            final(self).rate == old(self).rate,
            final(self).capacity == old(self).capacity,
            final(self).at_ms == now_ms,
            ({
                let refilled = refill_spec(
                    old(self).millitokens as int,
                    old(self).at_ms as int,
                    old(self).rate as int,
                    old(self).capacity as int,
                    now_ms as int,
                );
                match r {
                    None => refilled >= 1000 && final(self).millitokens as int == refilled - 1000,
                    Some(w) => refilled < 1000 && final(self).millitokens as int == refilled
                        && w as int == (1000 - refilled + old(self).rate as int - 1) / (
                    old(self).rate as int),
                }
            }),
    {
        let rate = self.rate as u64;
        let cap_m = self.capacity as u64 * 1000;
        let elapsed = now_ms - self.at_ms;
        let refilled: u64 = match elapsed.checked_mul(rate) {
            Some(a) => match self.millitokens.checked_add(a) {
                Some(s) => if s > cap_m {
                    cap_m
                } else {
                    s
                },
                None => cap_m,
            },
            None => {
                proof {
                    assert(elapsed as int * rate as int > u64::MAX);
                }
                cap_m
            },
        };
        self.at_ms = now_ms;
        if refilled >= 1000 {
            self.millitokens = refilled - 1000;
            None
        } else {
            self.millitokens = refilled;
            let w = (1000 - refilled + rate - 1) / rate;
            Some(w)
        }
    }
}

/// The bucket's content after a run of admission attempts at the given
/// instants, each refilling and then taking a token where one is there.
pub open spec fn gate_tokens(tokens: int, at: int, rate: int, cap: int, times: Seq<int>) -> int
    decreases times.len(),
{
    if times.len() == 0 {
        tokens
    } else {
        let refilled = refill_spec(tokens, at, rate, cap, times[0]);
        let next = if refilled >= 1000 {
            refilled - 1000
        } else {
            refilled
        };
        gate_tokens(next, times[0], rate, cap, times.drop_first())
    }
}

/// How many of a run of admission attempts at the given instants the
/// gate admits.
pub open spec fn gate_admitted(tokens: int, at: int, rate: int, cap: int, times: Seq<int>) -> int
    decreases times.len(),
{
    if times.len() == 0 {
        0
    } else {
        let refilled = refill_spec(tokens, at, rate, cap, times[0]);
        let next = if refilled >= 1000 {
            refilled - 1000
        } else {
            refilled
        };
        (if refilled >= 1000 {
            1int
        } else {
            0int
        }) + gate_admitted(next, times[0], rate, cap, times.drop_first())
    }
}

/// Attempt instants in order: never earlier than the bucket's last
/// refill, never later than `hi`.
pub open spec fn times_within(times: Seq<int>, at: int, hi: int) -> bool {
    &&& (forall|i: int| 0 <= i < times.len() ==> at <= #[trigger] times[i] <= hi)
    &&& (forall|i: int, j: int| 0 <= i <= j < times.len() ==> #[trigger] times[i] <= #[trigger] times[j])
}

/// Every admission costs a full token, and tokens only arrive with time:
/// the content after a run is bounded by the start content plus the
/// refill of the whole span, less the admissions taken.
proof fn lemma_gate_accounting(tokens: int, at: int, rate: int, cap: int, hi: int, times: Seq<int>)
    requires
        rate >= 1,
        cap >= 1,
        0 <= tokens <= cap * 1000,
        at <= hi,
        times_within(times, at, hi),
    ensures
        0 <= gate_tokens(tokens, at, rate, cap, times) <= cap * 1000,
        1000 * gate_admitted(tokens, at, rate, cap, times) <= tokens + (hi - at) * rate
            - gate_tokens(tokens, at, rate, cap, times),
        gate_admitted(tokens, at, rate, cap, times) >= 0,
    decreases times.len(),
{
    if times.len() == 0 {
        assert((hi - at) * rate >= 0) by (nonlinear_arith)
            requires
                hi >= at,
                rate >= 1,
        ;
    } else {
        let t0 = times[0];
        let refilled = refill_spec(tokens, at, rate, cap, t0);
        let next = if refilled >= 1000 {
            refilled - 1000
        } else {
            refilled
        };
        assert((t0 - at) * rate >= 0) by (nonlinear_arith)
            requires
                t0 >= at,
                rate >= 1,
        ;
        assert(0 <= next <= cap * 1000);
        assert(times_within(times.drop_first(), t0, hi)) by {
            assert(forall|i: int|
                0 <= i < times.drop_first().len() ==> #[trigger] times.drop_first()[i]
                    == times[i + 1]);
        }
        lemma_gate_accounting(next, t0, rate, cap, hi, times.drop_first());
        assert((t0 - at) * rate + (hi - t0) * rate == (hi - at) * rate) by (nonlinear_arith);
    }
}

/// Admission bound: from any sound bucket state, the attempts that fall
/// within the next window of a second are admitted at most `capacity`
/// plus `rate` many times — the standing burst allowance plus what the
/// window's refill accrues. No run of concurrent workers draws more from
/// the shared gate.
pub proof fn lemma_admission_bound(b: TokenBucket, times: Seq<int>)
    requires
        b.wf(),
        times_within(times, b.at_ms as int, b.at_ms as int + 1000),
    ensures
        gate_admitted(
            b.millitokens as int,
            b.at_ms as int,
            b.rate as int,
            b.capacity as int,
            times,
        ) <= b.capacity as int + b.rate as int,
{
    let at = b.at_ms as int;
    lemma_gate_accounting(
        b.millitokens as int,
        at,
        b.rate as int,
        b.capacity as int,
        at + 1000,
        times,
    );
    assert((at + 1000 - at) * b.rate as int == 1000 * b.rate as int) by (nonlinear_arith);
}

} // verus!
