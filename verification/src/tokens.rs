//! Token buckets: how much of something a client may do, and how fast.

use crate::clock;
use crate::clock::{Moment, SECOND};
use crate::protocol::payloads;
use crate::protocol::payloads::{Kick, KickView};
use vstd::prelude::*;
use vstd::string::*;

verus! {

/// A budget that is spent in tokens and refills over time.
///
/// What is left is counted in billionths of a token, so that a rate in tokens per second times a
/// time in nanoseconds is a whole number of them.
pub struct TokenBucket {
    identifier: String,
    tokens: u128,
    last_refill: Moment,
    rate: u64,
    max: u64,
}

/// A request for so many tokens at a moment.
pub type Request = (nat, Moment);

/// The requests come one after the other, none before `since`.
pub open spec fn in_order(since: Moment, requests: Seq<Request>) -> bool {
    &&& forall|i: int| 0 <= i < requests.len() ==> since <= (#[trigger] requests[i]).1
    &&& forall|i: int, j: int|
        0 <= i < j < requests.len() ==> (#[trigger] requests[i]).1 <= (#[trigger] requests[j]).1
}

/// What a [`TokenBucket`] holds.
pub struct BucketView {
    /// What the budget is for.
    pub identifier: Seq<char>,
    /// Billionths of a token that are left.
    pub tokens: nat,
    /// When the bucket was last refilled.
    pub last_refill: Moment,
    /// Tokens that come in per second.
    pub rate: nat,
    /// Tokens up to which the bucket refills.
    pub max: nat,
}

impl View for TokenBucket {
    type V = BucketView;

    closed spec fn view(&self) -> BucketView {
        BucketView {
            identifier: self.identifier@,
            tokens: self.tokens as nat,
            last_refill: self.last_refill,
            rate: self.rate as nat,
            max: self.max as nat,
        }
    }
}

impl Clone for TokenBucket {
    fn clone(&self) -> (r: Self)
        ensures
            r@ == self@,
    {
        TokenBucket {
            identifier: self.identifier.clone(),
            tokens: self.tokens,
            last_refill: self.last_refill,
            rate: self.rate,
            max: self.max,
        }
    }
}

impl BucketView {
    /// A new bucket with `burst` tokens in it.
    pub open spec fn fresh(
        identifier: Seq<char>,
        rate: nat,
        max: nat,
        burst: nat,
        now: Moment,
    ) -> BucketView {
        BucketView { identifier, tokens: burst * SECOND as nat, last_refill: now, rate, max }
    }

    /// The budget for changes to metadata, in bytes.
    pub open spec fn fresh_metadata(identifier: Seq<char>, now: Moment) -> BucketView {
        BucketView::fresh(identifier, 4096, 8192, 8192, now)
    }

    /// The bucket once the time up to `now` has been credited. A bucket that holds more than `max`
    /// tokens is credited nothing; no other is filled beyond `max`.
    pub open spec fn refilled(self, now: Moment) -> BucketView {
        let cap = self.max * SECOND as nat;
        let grown = self.tokens + clock::elapsed(self.last_refill, now) * self.rate;
        BucketView {
            tokens: if self.tokens > cap {
                self.tokens
            } else if grown > cap {
                cap
            } else {
                grown
            },
            last_refill: now,
            ..self
        }
    }

    /// Whether `count` tokens can be taken at `now`.
    pub open spec fn affords(self, count: nat, now: Moment) -> bool {
        count * SECOND as nat <= self.refilled(now).tokens
    }

    /// The bucket after somebody asked for `count` tokens at `now`: they are gone if they were
    /// there, and nothing is taken if they were not.
    pub open spec fn asked(self, count: nat, now: Moment) -> BucketView {
        let full = self.refilled(now);
        if self.affords(count, now) {
            BucketView { tokens: (full.tokens - count * SECOND) as nat, ..full }
        } else {
            full
        }
    }

    /// The bucket after the requests.
    pub open spec fn after(self, requests: Seq<Request>) -> BucketView
        decreases requests.len(),
    {
        if requests.len() == 0 {
            self
        } else {
            self.after(requests.drop_last()).asked(requests.last().0, requests.last().1)
        }
    }

    /// How many tokens the requests got.
    pub open spec fn taken(self, requests: Seq<Request>) -> nat
        decreases requests.len(),
    {
        if requests.len() == 0 {
            0
        } else {
            let earlier = requests.drop_last();
            let (count, now) = requests.last();
            self.taken(earlier) + if self.after(earlier).affords(count, now) {
                count
            } else {
                0
            }
        }
    }

    /// The kick for asking too much.
    pub open spec fn refusal(self) -> KickView {
        payloads::violation("rate_limited"@, "Bandwidth patrol! ("@ + self.identifier + ")"@)
    }
}

/// However a bucket is asked, it gives out no more than it held at first and what came in at its
/// rate since.
pub proof fn law_rate_is_kept(b: BucketView, requests: Seq<Request>)
    requires
        in_order(b.last_refill, requests),
    ensures
        b.after(requests).rate == b.rate,
        b.after(requests).max == b.max,
        b.after(requests).last_refill == if requests.len() == 0 {
            b.last_refill
        } else {
            requests.last().1
        },
        b.taken(requests) * SECOND + b.after(requests).tokens <= b.tokens + (b.after(
            requests,
        ).last_refill - b.last_refill) * b.rate,
    decreases requests.len(),
{
    if requests.len() > 0 {
        let earlier = requests.drop_last();
        let (count, now) = requests.last();
        assert forall|i: int| 0 <= i < earlier.len() implies b.last_refill <= (
        #[trigger] earlier[i]).1 by {
            assert(earlier[i] == requests[i]);
        }
        assert forall|i: int, j: int| 0 <= i < j < earlier.len() implies (#[trigger] earlier[i]).1
            <= (#[trigger] earlier[j]).1 by {
            assert(earlier[i] == requests[i] && earlier[j] == requests[j]);
        }
        law_rate_is_kept(b, earlier);
        let c = b.after(earlier);
        let t0 = b.last_refill as int;
        let t1 = c.last_refill as int;
        let t2 = now as int;
        assert(requests[requests.len() - 1] == (count, now));
        if earlier.len() > 0 {
            assert(earlier[earlier.len() - 1] == requests[earlier.len() - 1]);
        }
        assert(t0 <= t1 <= t2);
        let rate = b.rate as int;
        assert((t2 - t0) * rate == (t1 - t0) * rate + (t2 - t1) * rate) by (nonlinear_arith);
        assert(c.refilled(now).tokens <= c.tokens + (t2 - t1) * rate) by {
            assert((t2 - t1) * rate >= 0) by (nonlinear_arith)
                requires
                    t2 >= t1,
                    rate >= 0,
            ;
        }
    } else {
        assert((b.after(requests).last_refill - b.last_refill) * b.rate == 0) by (nonlinear_arith)
            requires
                b.after(requests).last_refill == b.last_refill,
        ;
    }
}

/// Asking never fills a bucket beyond its maximum, or beyond what was in it.
pub proof fn law_bucket_does_not_overflow(b: BucketView, count: nat, now: Moment)
    ensures
        b.asked(count, now).tokens <= b.max * SECOND || b.asked(count, now).tokens <= b.tokens,
{
}

/// Who waits long enough gets what they ask for, if a full bucket holds as much.
pub proof fn law_patience_is_rewarded(b: BucketView, count: nat, now: Moment)
    requires
        count <= b.max,
        clock::elapsed(b.last_refill, now) * b.rate >= count * SECOND,
    ensures
        b.affords(count, now),
{
    assert(count * SECOND <= b.max * SECOND) by (nonlinear_arith)
        requires
            count <= b.max,
    ;
}

/// A request that is refused costs nothing: what could be afforded still can be.
pub proof fn law_refusal_is_free(b: BucketView, count: nat, fewer: nat, now: Moment)
    requires
        !b.affords(count, now),
        b.affords(fewer, now),
    ensures
        b.asked(count, now).affords(fewer, now),
{
    let full = b.refilled(now);
    assert(b.asked(count, now) == full);
    assert(clock::elapsed(full.last_refill, now) * full.rate == 0) by (nonlinear_arith)
        requires
            clock::elapsed(full.last_refill, now) == 0,
    ;
}

/// So many tokens can be taken as are left and have come in since, at the bucket's rate and up to
/// its maximum; where more than the maximum is left, none come in.
pub proof fn law_what_can_be_taken(b: BucketView, count: nat, now: Moment)
    ensures
        b.affords(count, now) <==> if b.tokens > b.max * 1_000_000_000 {
            count * 1_000_000_000 <= b.tokens
        } else if b.last_refill <= now {
            count <= b.max && count * 1_000_000_000 <= b.tokens + (now - b.last_refill) * b.rate
        } else {
            count * 1_000_000_000 <= b.tokens
        },
{
    if b.tokens <= b.max * 1_000_000_000 {
        assert(count <= b.max <==> count * 1_000_000_000 <= b.max * 1_000_000_000)
            by (nonlinear_arith);
    }
    if b.last_refill > now {
        assert(clock::elapsed(b.last_refill, now) * b.rate == 0) by (nonlinear_arith)
            requires
                clock::elapsed(b.last_refill, now) == 0,
        ;
    }
}

/// What is left after somebody asked: what was left, what has come in since, up to the maximum
/// unless more was left, less what was taken if it was there.
pub proof fn law_what_is_left(b: BucketView, count: nat, now: Moment)
    requires
        b.last_refill <= now,
    ensures
        ({
            let cap = (b.max * 1_000_000_000) as int;
            let grown = b.tokens + (now - b.last_refill) * b.rate;
            let there = if b.tokens > cap {
                b.tokens as int
            } else if grown > cap {
                cap
            } else {
                grown
            };
            b.asked(count, now).tokens == if count * 1_000_000_000 <= there {
                there - count * 1_000_000_000
            } else {
                there
            }
        }),
{
}

/// What is taken is gone: after some tokens have been taken, as many more can be taken at once as
/// could have been taken with them.
pub proof fn law_what_is_taken_is_gone(b: BucketView, count: nat, more: nat, now: Moment)
    requires
        b.affords(count, now),
    ensures
        b.asked(count, now).affords(more, now) <==> b.affords(count + more, now),
{
    let full = b.refilled(now);
    let left = b.asked(count, now);
    assert(clock::elapsed(left.last_refill, now) * left.rate == 0) by (nonlinear_arith)
        requires
            clock::elapsed(left.last_refill, now) == 0,
    ;
    assert((count + more) * SECOND == count * SECOND + more * SECOND) by (nonlinear_arith);
}

/// Asking a bucket makes it up to date, and changes neither what it is for, nor its rate, nor its
/// maximum.
pub proof fn law_asking_keeps_the_terms(b: BucketView, count: nat, now: Moment)
    ensures
        b.asked(count, now).identifier == b.identifier,
        b.asked(count, now).rate == b.rate,
        b.asked(count, now).max == b.max,
        b.asked(count, now).last_refill == now,
{
}

/// A new bucket gives out its first tokens, and not one more, before time passes.
pub proof fn law_new_buckets_hold_their_burst(
    identifier: Seq<char>,
    rate: nat,
    max: nat,
    burst: nat,
    now: Moment,
    count: nat,
)
    ensures
        BucketView::fresh(identifier, rate, max, burst, now).affords(count, now) <==> count
            <= burst,
{
    let b = BucketView::fresh(identifier, rate, max, burst, now);
    assert(clock::elapsed(b.last_refill, now) * b.rate == 0) by (nonlinear_arith)
        requires
            clock::elapsed(b.last_refill, now) == 0,
    ;
    assert(count <= burst <==> count * SECOND <= burst * SECOND) by (nonlinear_arith);
}

/// The terms of a new bucket are those that were asked for.
pub proof fn law_new_buckets_keep_their_terms(
    identifier: Seq<char>,
    rate: nat,
    max: nat,
    burst: nat,
    now: Moment,
)
    ensures
        ({
            let b = BucketView::fresh(identifier, rate, max, burst, now);
            &&& b.identifier == identifier
            &&& b.rate == rate
            &&& b.max == max
            &&& b.tokens == burst * 1_000_000_000
            &&& b.last_refill == now
        }),
        BucketView::fresh_metadata(identifier, now) == BucketView::fresh(
            identifier,
            4096,
            8192,
            8192,
            now,
        ),
{
}

/// Who asks too much is told what of.
pub proof fn law_refusal_names_the_budget(b: BucketView)
    ensures
        b.refusal() == (KickView::Violation {
            code: "rate_limited"@,
            msg: "Bandwidth patrol! ("@ + b.identifier + ")"@,
        }),
{
}

impl TokenBucket {
    pub fn new_metadata(identifier: &str, now: Moment) -> (b: Self)
        ensures
            b@ == BucketView::fresh_metadata(identifier@, now),
    {
        Self::new(identifier, 4096, 8192, 8192, now)
    }

    /// A bucket that holds `burst` tokens at first and refills at `rate` tokens per second until
    /// there are `max`.
    pub fn new(identifier: &str, rate: u64, max: u64, burst: u64, now: Moment) -> (b: Self)
        ensures
            b@ == BucketView::fresh(identifier@, rate as nat, max as nat, burst as nat, now),
    {
        assert(burst * SECOND <= u64::MAX * SECOND) by (nonlinear_arith)
            requires
                burst <= u64::MAX,
        ;
        TokenBucket {
            identifier: identifier.to_owned(),
            tokens: burst as u128 * SECOND as u128,
            last_refill: now,
            rate,
            max,
        }
    }

    /// Takes `count` tokens out of the bucket if they are there.
    pub fn try_take(&mut self, count: usize, now: Moment) -> (r: Result<(), Kick>)
        ensures
            final(self)@ == old(self)@.asked(count as nat, now),
            r is Ok <==> old(self)@.affords(count as nat, now),
            r matches Err(kick) ==> kick@ == old(self)@.refusal(),
    {
        let cap: u128 = self.max as u128 * SECOND as u128;
        let price: u128 = count as u128 * SECOND as u128;
        let dt: u64 = clock::time_since(self.last_refill, now);
        assert(dt * self.rate <= u64::MAX * u64::MAX) by (nonlinear_arith)
            requires
                dt <= u64::MAX,
                self.rate <= u64::MAX,
        ;
        let gain: u128 = dt as u128 * self.rate as u128;
        self.last_refill = now;
        if self.tokens <= cap {
            if gain > cap - self.tokens {
                self.tokens = cap;
            } else {
                self.tokens = self.tokens + gain;
            }
        }
        if self.tokens < price {
            let msg = "Bandwidth patrol! (".to_owned().concat(self.identifier.as_str()).concat(")");
            return Err(Kick::violation("rate_limited", msg.as_str()));
        }
        self.tokens = self.tokens - price;
        Ok(())
    }

    /// Takes `count` tokens out of the bucket and says whether they were there.
    pub fn take(&mut self, count: usize, now: Moment) -> (r: bool)
        ensures
            final(self)@ == old(self)@.asked(count as nat, now),
            r == old(self)@.affords(count as nat, now),
    {
        self.try_take(count, now).is_ok()
    }
}

} // verus!
