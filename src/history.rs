use vstd::prelude::*;
use vstd::arithmetic::div_mod::lemma_multiply_divide_lt;

verus! {

/// The last `max` elements of `s` (all of `s` when it is not longer than `max`).
pub open spec fn last_n(s: Seq<u32>, max: nat) -> Seq<u32> {
    if s.len() <= max {
        s
    } else {
        s.subrange(s.len() - max, s.len() as int)
    }
}

/// The history that results from accepting each of `samples`, in order, into `h`
/// with capacity `max`.
pub open spec fn accept_all(h: Seq<u32>, max: nat, samples: Seq<u32>) -> Seq<u32>
    decreases samples.len(),
{
    if samples.len() == 0 {
        h
    } else {
        accept_all(last_n(h.push(samples[0]), max), max, samples.drop_first())
    }
}

/// How far one update moves the average toward a new sample: the weight
/// `num / den`, between zero and one.
#[derive(Clone, Copy, Debug)]
pub struct Smoothing {
    pub num: u32,
    pub den: u32,
}

impl Smoothing {
    pub open spec fn valid(&self) -> bool {
        0 < self.den && self.num <= self.den
    }

    /// The weight `num / den`, when it lies between zero and one.
    pub fn new(num: u32, den: u32) -> (r: Option<Smoothing>)
        ensures
            r is Some <==> (0 < den && num <= den),
            r matches Some(w) ==> w.num == num && w.den == den && w.valid(),
    {
        if 0 < den && num <= den {
            Some(Smoothing { num, den })
        } else {
            None
        }
    }

    /// The classic weight `2 / (period + 1)` for a smoothing period of at least one.
    pub fn from_period(period: u32) -> (r: Smoothing)
        requires
            1 <= period < u32::MAX,
        ensures
            r.num == 2,
            r.den == period + 1,
            r.valid(),
    {
        Smoothing { num: 2, den: period + 1 }
    }

    /// The weight that the integer quotient `2 / (2 + 1)` gives: zero, so the
    /// average never moves away from the oldest sample.
    pub fn truncated() -> (r: Smoothing)
        ensures
            r.num == 0,
            r.den == 1,
            r.valid(),
    {
        Smoothing { num: 0, den: 1 }
    }
}

/// `round(x * num / den)` for `x >= 0`, halves rounded up.
pub open spec fn scaled_round(x: int, num: int, den: int) -> int {
    (2 * x * num + den) / (2 * den)
}

/// One update of the average `e` toward the sample `s`: `e + round((s - e) * num / den)`,
/// rounding half away from zero.
pub open spec fn ema_step(e: int, s: int, num: int, den: int) -> int {
    if s >= e {
        e + scaled_round(s - e, num, den)
    } else {
        e - scaled_round(e - s, num, den)
    }
}

/// The average over `p`: seeded with `p[0]` and updated with each later sample in order.
pub open spec fn ema_of(p: Seq<u32>, num: int, den: int) -> int
    decreases p.len(),
{
    if p.len() == 0 {
        0
    } else if p.len() == 1 {
        p[0] as int
    } else {
        ema_step(ema_of(p.drop_last(), num, den), p.last() as int, num, den)
    }
}

/// The prediction for a history: none below two samples, else the average over all of them.
pub open spec fn predict_spec(p: Seq<u32>, w: Smoothing) -> Option<u32> {
    if p.len() < 2 {
        None
    } else {
        Some(ema_of(p, w.num as int, w.den as int) as u32)
    }
}

proof fn lemma_scaled_round_bounded(x: int, num: int, den: int)
    requires
        0 <= x,
        0 <= num <= den,
        0 < den,
    ensures
        0 <= scaled_round(x, num, den) <= x,
{
    assert(2 * x * num <= 2 * x * den) by (nonlinear_arith)
        requires 0 <= x, num <= den;
    assert(2 * x * num + den < (2 * den) * (x + 1)) by (nonlinear_arith)
        requires 2 * x * num <= 2 * x * den, 0 < den;
    lemma_multiply_divide_lt(2 * x * num + den, 2 * den, x + 1);
    assert(0 <= 2 * x * num) by (nonlinear_arith)
        requires 0 <= x, 0 <= num;
}

/// Each update lands between the previous average and the new sample.
proof fn lemma_ema_step_between(e: int, s: int, num: int, den: int)
    requires
        0 <= num <= den,
        0 < den,
    ensures
        s >= e ==> e <= ema_step(e, s, num, den) <= s,
        s < e ==> s <= ema_step(e, s, num, den) <= e,
{
    if s >= e {
        lemma_scaled_round_bounded(s - e, num, den);
    } else {
        lemma_scaled_round_bounded(e - s, num, den);
    }
}

/// One update of the average `e` toward the sample `s`.
fn ema_update(e: u32, s: u32, w: &Smoothing) -> (r: u32)
    requires
        w.valid(),
    ensures
        r == ema_step(e as int, s as int, w.num as int, w.den as int),
{
    proof {
        lemma_ema_step_between(e as int, s as int, w.num as int, w.den as int);
    }
    let num = w.num as u128;
    let den = w.den as u128;
    if s >= e {
        let x = (s - e) as u128;
        assert(2 * x * num <= 2 * 0x1_0000_0000u128 * 0x1_0000_0000u128) by (nonlinear_arith)
            requires x < 0x1_0000_0000u128, num < 0x1_0000_0000u128;
        let q = (2 * x * num + den) / (2 * den);
        e + q as u32
    } else {
        let x = (e - s) as u128;
        assert(2 * x * num <= 2 * 0x1_0000_0000u128 * 0x1_0000_0000u128) by (nonlinear_arith)
            requires x < 0x1_0000_0000u128, num < 0x1_0000_0000u128;
        let q = (2 * x * num + den) / (2 * den);
        e - q as u32
    }
}

proof fn lemma_last_n_push(s: Seq<u32>, x: u32, max: nat)
    ensures
        last_n(last_n(s, max).push(x), max) == last_n(s.push(x), max),
{
    assert(last_n(last_n(s, max).push(x), max) =~= last_n(s.push(x), max));
}

proof fn lemma_accept_all_from(h: Seq<u32>, max: nat, samples: Seq<u32>)
    ensures
        accept_all(last_n(h, max), max, samples) == last_n(h + samples, max),
    decreases samples.len(),
{
    if samples.len() == 0 {
        assert(h + samples =~= h);
        assert(last_n(last_n(h, max), max) =~= last_n(h, max));
    } else {
        lemma_last_n_push(h, samples[0], max);
        lemma_accept_all_from(h.push(samples[0]), max, samples.drop_first());
        assert(h.push(samples[0]) + samples.drop_first() =~= h + samples);
    }
}

/// Whatever samples are accepted, in whatever number, the history never holds
/// more than its capacity, and it holds exactly the most recent samples, in
/// the order in which they arrived.
pub proof fn lemma_history_is_last_samples(max: nat, samples: Seq<u32>)
    ensures
        accept_all(Seq::empty(), max, samples) == last_n(samples, max),
        accept_all(Seq::empty(), max, samples).len() <= max,
        samples.len() >= max ==> accept_all(Seq::empty(), max, samples)
            == samples.subrange(samples.len() - max, samples.len() as int),
{
    let e = Seq::<u32>::empty();
    assert(last_n(e, max) =~= e);
    lemma_accept_all_from(e, max, samples);
    assert(e + samples =~= samples);
}

/// A fixed-capacity FIFO of accepted prices, oldest first.
pub struct PriceHistory {
    prices: Vec<u32>,
    max_prices: u32,
}

impl PriceHistory {
    pub closed spec fn view(&self) -> Seq<u32> {
        self.prices@
    }

    pub closed spec fn capacity(&self) -> nat {
        self.max_prices as nat
    }

    pub closed spec fn wf(&self) -> bool {
        self.prices@.len() <= self.max_prices
    }

    /// A well-formed history holds no more samples than its capacity.
    pub proof fn lemma_len_within_capacity(&self)
        requires
            self.wf(),
        ensures
            self@.len() <= self.capacity(),
    {
    }

    /// An empty history that keeps at most `max_prices` samples.
    pub fn new(max_prices: u32) -> (r: PriceHistory)
        ensures
            r.wf(),
            r@ == Seq::<u32>::empty(),
            r.capacity() == max_prices,
    {
        PriceHistory { prices: Vec::new(), max_prices }
    }

    pub fn max_prices(&self) -> (r: u32)
        ensures
            r == self.capacity(),
    {
        self.max_prices
    }

    pub fn len(&self) -> (r: usize)
        ensures
            r == self@.len(),
    {
        self.prices.len()
    }

    /// The sample at position `i`, oldest first.
    pub fn get(&self, i: usize) -> (r: u32)
        requires
            i < self@.len(),
        ensures
            r == self@[i as int],
    {
        self.prices[i]
    }

    /// The most recently accepted sample, if any.
    pub fn latest(&self) -> (r: Option<u32>)
        ensures
            self@.len() == 0 ==> r is None,
            self@.len() > 0 ==> r == Some(self@.last()),
    {
        let n = self.prices.len();
        if n == 0 {
            None
        } else {
            Some(self.prices[n - 1])
        }
    }

    /// The samples, oldest first.
    pub fn to_vec(&self) -> (r: Vec<u32>)
        ensures
            r@ == self@,
    {
        self.prices.clone()
    }

    /// Appends `sample`, evicting the oldest sample first when the history is full.
    pub fn accept(&mut self, sample: u32)
        requires
            old(self).wf(),
        ensures
            final(self).wf(),
            final(self).capacity() == old(self).capacity(),
            final(self)@ == last_n(old(self)@.push(sample), old(self).capacity()),
    {
        self.prices.push(sample);
        if self.prices.len() > self.max_prices as usize {
            self.prices.remove(0);
        }
        assert(self.prices@ =~= last_n(old(self)@.push(sample), old(self).capacity()));
    }

    /// The next price predicted from the history: `None` below two samples,
    /// else the moving average seeded with the oldest sample and updated with
    /// every later one, the newest included.
    pub fn predict(&self, w: &Smoothing) -> (r: Option<u32>)
        requires
            w.valid(),
        ensures
            r == predict_spec(self@, *w),
    {
        let n = self.prices.len();
        if n < 2 {
            return None;
        }
        let mut ema: u32 = self.prices[0];
        let mut i: usize = 1;
        assert(self.prices@.subrange(0, 1).drop_last().len() == 0);
        while i < n
            invariant
                1 <= i <= n,
                n == self.prices@.len(),
                w.valid(),
                ema as int == ema_of(self.prices@.subrange(0, i as int), w.num as int, w.den as int),
            decreases n - i,
        {
            let next = ema_update(ema, self.prices[i], w);
            proof {
                let p = self.prices@.subrange(0, i as int + 1);
                assert(p.drop_last() =~= self.prices@.subrange(0, i as int));
            }
            ema = next;
            i = i + 1;
        }
        assert(self.prices@.subrange(0, n as int) =~= self.prices@);
        Some(ema)
    }
}

} // verus!
