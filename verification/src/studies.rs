//! Streaming studies over closing prices. The simple moving average keeps the
//! last `bars` prices and exposes their mean as an exact fraction, so signal
//! comparisons against it lose no precision.

use vstd::prelude::*;

verus! {

/// The exact mean of `count` prices summing to `sum` (in cents): sum / count.
/// Comparisons against a price `p` are done by cross-multiplication, so the
/// fraction never needs to be divided out.
#[derive(Clone, Copy, Debug, PartialEq, Eq, Structural)]
pub struct Mean {
    pub sum: u128,
    pub count: usize,
}

/// A price strictly below the mean, compared exactly: p < sum / count.
pub open spec fn spec_below_mean(price: int, m: Mean) -> bool {
    price * m.count < m.sum
}

/// A price strictly above the mean, compared exactly: p > sum / count.
pub open spec fn spec_above_mean(price: int, m: Mean) -> bool {
    price * m.count > m.sum
}

/// The first mean strictly above the second: a.sum/a.count > b.sum/b.count,
/// compared exactly by cross-multiplication.
pub open spec fn spec_mean_above(a: Mean, b: Mean) -> bool {
    a.sum * b.count > b.sum * a.count
}

/// The first mean strictly below the second.
pub open spec fn spec_mean_below(a: Mean, b: Mean) -> bool {
    a.sum * b.count < b.sum * a.count
}

/// Whether `price` lies strictly below the mean, compared exactly.
pub fn price_below_mean(price: u64, m: &Mean) -> (r: bool)
    ensures
        r == spec_below_mean(price as int, *m),
{
    proof {
        assert((price as int) * (m.count as int) < 0x1_0000_0000_0000_0000_0000_0000_0000_0000int)
            by (nonlinear_arith)
            requires
                0 <= price <= u64::MAX,
                0 <= m.count <= u64::MAX,
        ;
    }
    (price as u128) * (m.count as u128) < m.sum
}

/// Whether `price` lies strictly above the mean, compared exactly.
pub fn price_above_mean(price: u64, m: &Mean) -> (r: bool)
    ensures
        r == spec_above_mean(price as int, *m),
{
    proof {
        assert((price as int) * (m.count as int) < 0x1_0000_0000_0000_0000_0000_0000_0000_0000int)
            by (nonlinear_arith)
            requires
                0 <= price <= u64::MAX,
                0 <= m.count <= u64::MAX,
        ;
    }
    (price as u128) * (m.count as u128) > m.sum
}

/// Whether the first mean lies strictly above the second, compared exactly.
/// The products must fit in `u128`; the windows this engine uses keep the
/// sums far below that.
pub fn mean_above(a: &Mean, b: &Mean) -> (r: bool)
    requires
        (a.sum as int) * (b.count as int) <= u128::MAX as int,
        (b.sum as int) * (a.count as int) <= u128::MAX as int,
    ensures
        r == spec_mean_above(*a, *b),
{
    a.sum * (b.count as u128) > b.sum * (a.count as u128)
}

/// Whether the first mean lies strictly below the second, compared exactly.
pub fn mean_below(a: &Mean, b: &Mean) -> (r: bool)
    requires
        (a.sum as int) * (b.count as int) <= u128::MAX as int,
        (b.sum as int) * (a.count as int) <= u128::MAX as int,
    ensures
        r == spec_mean_below(*a, *b),
{
    a.sum * (b.count as u128) < b.sum * (a.count as u128)
}

pub open spec fn seq_sum(s: Seq<u64>) -> int
    decreases s.len(),
{
    if s.len() == 0 {
        0
    } else {
        s[0] + seq_sum(s.drop_first())
    }
}

pub proof fn lemma_seq_sum_bounds(s: Seq<u64>)
    ensures
        0 <= seq_sum(s) <= s.len() * (u64::MAX as int),
    decreases s.len(),
{
    if s.len() > 0 {
        lemma_seq_sum_bounds(s.drop_first());
    }
}

pub proof fn lemma_seq_sum_snoc(s: Seq<u64>, x: u64)
    ensures
        seq_sum(s.push(x)) == seq_sum(s) + x,
    decreases s.len(),
{
    if s.len() == 0 {
        assert(s.push(x).drop_first() =~= Seq::<u64>::empty());
        assert(s.push(x)[0] == x);
        assert(seq_sum(Seq::<u64>::empty()) == 0);
    } else {
        assert(s.push(x).drop_first() =~= s.drop_first().push(x));
        assert(s.push(x)[0] == s[0]);
        lemma_seq_sum_snoc(s.drop_first(), x);
    }
}

/// The model of an SMA: its window size, the retained prices, and the mean it
/// currently reports.
#[verifier::ext_equal]
pub ghost struct SmaM {
    pub bars: int,
    pub buffer: Seq<u64>,
    pub value: Option<Mean>,
}

pub open spec fn spec_sma_init(bars: int) -> SmaM {
    SmaM { bars, buffer: Seq::empty(), value: None }
}

/// One `add`: append the price; once the window is full, drop the oldest
/// price and report the mean of exactly the last `bars` prices.
pub open spec fn spec_sma_add(m: SmaM, price: u64) -> SmaM {
    let grown = m.buffer.push(price);
    if grown.len() < m.bars {
        SmaM { buffer: grown, ..m }
    } else {
        let window = if grown.len() > m.bars {
            grown.drop_first()
        } else {
            grown
        };
        SmaM {
            bars: m.bars,
            buffer: window,
            value: Some(Mean { sum: seq_sum(window) as u128, count: m.bars as usize }),
        }
    }
}

/// The state after feeding `prices`, oldest first, into `m`.
pub open spec fn spec_sma_run(m: SmaM, prices: Seq<u64>) -> SmaM
    decreases prices.len(),
{
    if prices.len() == 0 {
        m
    } else {
        spec_sma_run(spec_sma_add(m, prices[0]), prices.drop_first())
    }
}

pub open spec fn spec_sma_wf(m: SmaM) -> bool {
    &&& 1 <= m.bars <= usize::MAX
    &&& m.buffer.len() <= m.bars
    &&& (m.value matches Some(v) ==> v.count == m.bars && v.sum <= m.bars * (u64::MAX as int))
    &&& (m.buffer.len() == m.bars ==> m.value is Some)
}

/// A simple moving average over the last `bars` closing prices, fed one price
/// at a time. `value` is `None` until `bars` prices have been observed and
/// afterwards always the exact mean of the most recent `bars` prices.
pub struct SMA {
    pub value: Option<Mean>,
    pub bars: usize,
    pub buffer: Vec<u64>,
}

impl View for SMA {
    type V = SmaM;

    open spec fn view(&self) -> SmaM {
        SmaM { bars: self.bars as int, buffer: self.buffer@, value: self.value }
    }
}

impl SMA {
    pub open spec fn wf(self) -> bool {
        spec_sma_wf(self@)
    }

    pub fn new(bars: usize) -> (r: SMA)
        requires
            bars >= 1,
        ensures
            r@ == spec_sma_init(bars as int),
            r.wf(),
    {
        SMA { bars, value: None, buffer: Vec::new() }
    }

    pub fn add(&mut self, price: u64)
        requires
            old(self).wf(),
        ensures
            final(self)@ == spec_sma_add(old(self)@, price),
            final(self).wf(),
    {
        let ghost target = spec_sma_add(old(self)@, price);
        self.buffer.push(price);
        if self.buffer.len() < self.bars {
            proof {
                assert(self@ =~= target);
            }
            return ;
        }
        if self.buffer.len() > self.bars {
            self.buffer.remove(0);
            proof {
                assert(self.buffer@ =~= old(self)@.buffer.push(price).drop_first());
            }
        }
        let mut sum: u128 = 0;
        let mut i: usize = 0;
        while i < self.buffer.len()
            invariant
                i <= self.buffer@.len(),
                self.buffer@.len() <= usize::MAX,
                sum == seq_sum(self.buffer@.take(i as int)),
                sum <= i * (u64::MAX as int),
            decreases self.buffer@.len() - i,
        {
            proof {
                assert(self.buffer@.take(i + 1) =~= self.buffer@.take(i as int).push(
                    self.buffer@[i as int],
                ));
                lemma_seq_sum_snoc(self.buffer@.take(i as int), self.buffer@[i as int]);
                assert((i + 1) * (u64::MAX as int) == i * (u64::MAX as int) + (u64::MAX as int))
                    by (nonlinear_arith);
                assert((i + 1) * (u64::MAX as int) <= (usize::MAX as int) * (u64::MAX as int))
                    by (nonlinear_arith)
                    requires
                        i + 1 <= usize::MAX,
                ;
            }
            sum = sum + self.buffer[i] as u128;
            i = i + 1;
        }
        proof {
            assert(self.buffer@.take(self.buffer@.len() as int) =~= self.buffer@);
            lemma_seq_sum_bounds(self.buffer@);
        }
        self.value = Some(Mean { sum, count: self.bars });
        proof {
            assert(self@ =~= target);
        }
    }
}

/// Processing one more price commutes with the fold: feeding `s` then `x`
/// equals one `add` of `x` after feeding `s`.
pub proof fn lemma_sma_run_snoc(m: SmaM, s: Seq<u64>, x: u64)
    ensures
        spec_sma_run(m, s.push(x)) == spec_sma_add(spec_sma_run(m, s), x),
    decreases s.len(),
{
    if s.len() == 0 {
        assert(s.push(x).drop_first() =~= Seq::<u64>::empty());
        assert(s.push(x)[0] == x);
        assert(spec_sma_run(spec_sma_add(m, x), Seq::<u64>::empty()) == spec_sma_add(m, x));
        assert(spec_sma_run(m, s) == m);
    } else {
        assert(s.push(x).drop_first() =~= s.drop_first().push(x));
        assert(s.push(x)[0] == s[0]);
        lemma_sma_run_snoc(spec_sma_add(m, s[0]), s.drop_first(), x);
        assert(spec_sma_run(m, s.push(x)) == spec_sma_run(
            spec_sma_add(m, s[0]),
            s.drop_first().push(x),
        ));
        assert(spec_sma_run(m, s) == spec_sma_run(spec_sma_add(m, s[0]), s.drop_first()));
    }
}

/// Sliding-window correctness of the moving average: after feeding any price
/// sequence into a fresh SMA of window `bars`, the buffer holds exactly the
/// most recent `min(bars, len)` prices, the value is absent while fewer than
/// `bars` prices have been seen, and from the `bars`-th price on it is the
/// exact mean of precisely the last `bars` prices.
pub proof fn lemma_sma_sliding_window(bars: int, prices: Seq<u64>)
    requires
        1 <= bars <= usize::MAX,
    ensures
        ({
            let m = spec_sma_run(spec_sma_init(bars), prices);
            &&& m.bars == bars
            &&& (prices.len() < bars ==> m.buffer == prices && m.value is None)
            &&& (prices.len() >= bars ==> m.buffer == prices.subrange(
                prices.len() - bars,
                prices.len() as int,
            ) && m.value == Some(
                Mean { sum: seq_sum(m.buffer) as u128, count: bars as usize },
            ))
        }),
    decreases prices.len(),
{
    if prices.len() == 0 {
    } else {
        let q = prices.drop_last();
        let x = prices.last();
        lemma_sma_sliding_window(bars, q);
        assert(q.push(x) =~= prices);
        lemma_sma_run_snoc(spec_sma_init(bars), q, x);
        let mq = spec_sma_run(spec_sma_init(bars), q);
        let m = spec_sma_add(mq, x);
        let grown = mq.buffer.push(x);
        if q.len() < bars {
            assert(grown =~= prices);
            if grown.len() >= bars {
                assert(grown =~= prices.subrange(prices.len() - bars, prices.len() as int));
            }
        } else {
            assert(grown =~= prices.subrange(prices.len() - bars - 1, prices.len() as int));
            assert(grown.len() == bars + 1);
            assert(grown.drop_first() =~= prices.subrange(prices.len() - bars, prices.len() as int));
        }
    }
}

} // verus!
