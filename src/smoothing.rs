//! The rainfall smoother: a tip recorded after dry intervals is spread back over
//! them, with a cap on what each spread interval may receive.
//!
//! Samples come in whole micrometres of rain. Inside the smoother and in its
//! output, amounts are counted in sixtieths of a micrometre, so that every split
//! the smoother makes (into 1 to 5 parts, or a cap into 1 to 4) is exact.
//!
//! At this resolution a sample is wet exactly when it is at least one
//! micrometre, and every share a split makes stays wet, so smoothing conserves
//! rain exactly. An amount under half a micrometre rounds to a dry zero: the
//! 0.01 micrometre (1e-5 mm) wetness threshold of a floating-point smoother cannot
//! be told apart from zero here.

use vstd::prelude::*;

verus! {

/// Sixtieths of a micrometre in a micrometre.
pub const UNITS_PER_UM: i64 = 60;

/// The most that one spread interval receives: 6 mm, in sixtieths of a micrometre.
pub const CAP: i64 = 360_000;

/// How many dry intervals back a tip may be spread over.
pub const MAX_SCAN: usize = 4;

/// How many values the smoother holds back before emitting.
pub const KEEP: usize = 10;

/// The largest sample magnitude accepted, in micrometres (a million kilometres).
pub const MAX_SAMPLE_UM: i64 = 1_000_000_000_000;

/// The largest amount the smoother ever holds, in sixtieths of a micrometre.
pub const MAX_UNITS: i64 = 60_000_000_000_000;

/// How many entries at the end of `buf`, from the `k`-th last on, are dry (at
/// most zero), scanning back no further than `MAX_SCAN` entries.
pub open spec fn dry_from(buf: Seq<int>, k: int) -> int
    decreases MAX_SCAN - k,
{
    if k < 0 || k >= MAX_SCAN || k >= buf.len() || buf[buf.len() - 1 - k] > 0 {
        k
    } else {
        dry_from(buf, k + 1)
    }
}

/// How many dry entries end `buf` (at most `MAX_SCAN`).
pub open spec fn dry_tail(buf: Seq<int>) -> int {
    dry_from(buf, 0)
}

/// The pending values after a new amount `x` arrives: a positive amount is spread
/// evenly over itself and the dry entries that end the buffer; where there are
/// such entries and `x` exceeds the cap, they share the cap and `x` keeps the rest.
pub open spec fn spread(buf: Seq<int>, x: int) -> Seq<int> {
    if x <= 0 {
        buf.push(x)
    } else {
        let c = dry_tail(buf);
        let head = buf.subrange(0, buf.len() - c);
        if c > 0 && x > CAP {
            head + Seq::new(c as nat, |i: int| (CAP as int) / c) + seq![x - CAP]
        } else {
            head + Seq::new(c as nat, |i: int| (x as int) / (c + 1)) + seq![(x as int) / (c + 1)]
        }
    }
}

/// One sample of `x` micrometres arrives: spread it, then emit what exceeds the
/// values held back. The state is (held back, emitted).
pub open spec fn step(st: (Seq<int>, Seq<int>), x: int) -> (Seq<int>, Seq<int>) {
    let b = spread(st.0, x * UNITS_PER_UM);
    if b.len() > KEEP {
        (b.subrange(b.len() - KEEP, b.len() as int), st.1 + b.subrange(0, b.len() - KEEP))
    } else {
        (b, st.1)
    }
}

/// The state after the samples `xs` have arrived in order.
pub open spec fn run(xs: Seq<int>) -> (Seq<int>, Seq<int>)
    decreases xs.len(),
{
    if xs.len() == 0 {
        (seq![], seq![])
    } else {
        step(run(xs.drop_last()), xs.last())
    }
}

/// Every value the smoother emits for the samples `xs`, once all is flushed.
pub open spec fn smoothed(xs: Seq<int>) -> Seq<int> {
    run(xs).1 + run(xs).0
}

/// The sum of a sequence.
pub open spec fn total(s: Seq<int>) -> int
    decreases s.len(),
{
    if s.len() == 0 {
        0
    } else {
        total(s.drop_last()) + s.last()
    }
}

pub open spec fn ints(v: Seq<i64>) -> Seq<int> {
    v.map_values(|x: i64| x as int)
}

pub proof fn lemma_total_append(a: Seq<int>, b: Seq<int>)
    ensures
        total(a + b) == total(a) + total(b),
    decreases b.len(),
{
    if b.len() == 0 {
        assert(a + b =~= a);
    } else {
        assert((a + b).drop_last() =~= a + b.drop_last());
        lemma_total_append(a, b.drop_last());
    }
}

pub proof fn lemma_total_const(s: Seq<int>, v: int)
    requires
        forall|i: int| 0 <= i < s.len() ==> #[trigger] s[i] == v,
    ensures
        total(s) == s.len() * v,
    decreases s.len(),
{
    if s.len() > 0 {
        lemma_total_const(s.drop_last(), v);
        assert(s.len() * v == (s.len() - 1) * v + v) by (nonlinear_arith);
    }
}

/// No value of `s` is negative.
pub open spec fn nonneg(s: Seq<int>) -> bool {
    forall|i: int| 0 <= i < s.len() ==> #[trigger] s[i] >= 0
}

/// The `j`-th last entry of `buf` is dry.
pub open spec fn dry_at(buf: Seq<int>, j: int) -> bool {
    buf[buf.len() - 1 - j] <= 0
}

pub proof fn lemma_dry_from(buf: Seq<int>, k: int)
    requires
        0 <= k <= MAX_SCAN,
        k <= buf.len(),
        forall|j: int| 0 <= j < k ==> #[trigger] dry_at(buf, j),
    ensures
        k <= dry_from(buf, k) <= MAX_SCAN,
        dry_from(buf, k) <= buf.len(),
        forall|j: int| 0 <= j < dry_from(buf, k) ==> #[trigger] dry_at(buf, j),
    decreases MAX_SCAN - k,
{
    if !(k >= MAX_SCAN || k >= buf.len() || buf[buf.len() - 1 - k] > 0) {
        lemma_dry_from(buf, k + 1);
    }
}

/// Spreading a positive amount over a buffer of non-negative values keeps the sum:
/// the dry entries it overwrites held nothing.
pub proof fn lemma_spread_total(buf: Seq<int>, y: int)
    requires
        nonneg(buf),
        y >= 0,
    ensures
        total(spread(buf, y * UNITS_PER_UM)) == total(buf) + y * UNITS_PER_UM,
        nonneg(spread(buf, y * UNITS_PER_UM)),
{
    let x = y * UNITS_PER_UM;
    if x <= 0 {
        assert(buf.push(x).drop_last() =~= buf);
    } else {
        lemma_dry_from(buf, 0);
        let c = dry_tail(buf);
        let head = buf.subrange(0, buf.len() - c);
        let tail = buf.subrange(buf.len() - c, buf.len() as int);
        assert(buf =~= head + tail);
        assert(tail =~= Seq::new(c as nat, |i: int| 0int)) by {
            assert forall|i: int| 0 <= i < c implies tail[i] == 0 by {
                assert(dry_at(buf, c - 1 - i));
            }
        }
        lemma_total_append(head, tail);
        lemma_total_const(tail, 0);
        assert(seq![x - CAP].drop_last() =~= Seq::<int>::empty());
        if c > 0 && x > CAP {
            let mid = Seq::new(c as nat, |i: int| (CAP as int) / c);
            lemma_total_append(head + mid, seq![x - CAP]);
            lemma_total_append(head, mid);
            lemma_total_const(mid, (CAP as int) / c);
            assert(c * ((CAP as int) / c) == CAP) by {
                assert(1 <= c <= 4);
                if c == 1 {
                    assert((CAP as int) / 1 == 360000);
                    assert(c * ((CAP as int) / c) == CAP) by (nonlinear_arith)
                        requires
                            c == 1,
                            (CAP as int) / 1 == 360000,
                    ;
                } else if c == 2 {
                    assert((CAP as int) / 2 == 180000);
                    assert(c * ((CAP as int) / c) == CAP) by (nonlinear_arith)
                        requires
                            c == 2,
                            (CAP as int) / 2 == 180000,
                    ;
                } else if c == 3 {
                    assert((CAP as int) / 3 == 120000);
                    assert(c * ((CAP as int) / c) == CAP) by (nonlinear_arith)
                        requires
                            c == 3,
                            (CAP as int) / 3 == 120000,
                    ;
                } else {
                    assert(c == 4);
                    assert((CAP as int) / 4 == 90000);
                    assert(c * ((CAP as int) / c) == CAP) by (nonlinear_arith)
                        requires
                            c == 4,
                            (CAP as int) / 4 == 90000,
                    ;
                }
            }
            assert(seq![x - CAP].last() == x - CAP);
            assert(seq![x - CAP].drop_last() =~= Seq::<int>::empty());
            assert(total(Seq::<int>::empty()) == 0);
            assert(total(seq![x - CAP]) == x - CAP);
            assert(total(mid) == CAP);
            assert(spread(buf, x) == head + mid + seq![x - CAP]);
            assert(total(head + mid + seq![x - CAP]) == total(head) + CAP + x - CAP);
        } else {
            let s = (x as int) / (c + 1);
            let mid = Seq::new(c as nat, |i: int| s);
            lemma_total_append(head + mid, seq![s]);
            lemma_total_append(head, mid);
            lemma_total_const(mid, s);
            assert(seq![s].drop_last() =~= Seq::<int>::empty());
            assert(c * s + s == x) by {
                assert(0 <= c <= 4);
                assert(x == 60 * y);
                if c == 0 {
                    assert(s == x);
                } else if c == 1 {
                    vstd::arithmetic::div_mod::lemma_div_multiples_vanish(30 * y, 2);
                    assert(x == 2 * (30 * y));
                    assert(s == 30 * y);
                    assert(c * s + s == x) by (nonlinear_arith)
                        requires
                            c == 1,
                            s == 30 * y,
                            x == 60 * y,
                    ;
                } else if c == 2 {
                    vstd::arithmetic::div_mod::lemma_div_multiples_vanish(20 * y, 3);
                    assert(x == 3 * (20 * y));
                    assert(s == 20 * y);
                    assert(c * s + s == x) by (nonlinear_arith)
                        requires
                            c == 2,
                            s == 20 * y,
                            x == 60 * y,
                    ;
                } else if c == 3 {
                    vstd::arithmetic::div_mod::lemma_div_multiples_vanish(15 * y, 4);
                    assert(x == 4 * (15 * y));
                    assert(s == 15 * y);
                    assert(c * s + s == x) by (nonlinear_arith)
                        requires
                            c == 3,
                            s == 15 * y,
                            x == 60 * y,
                    ;
                } else {
                    assert(c == 4);
                    vstd::arithmetic::div_mod::lemma_div_multiples_vanish(12 * y, 5);
                    assert(x == 5 * (12 * y));
                    assert(s == 12 * y);
                    assert(c * s + s == x) by (nonlinear_arith)
                        requires
                            c == 4,
                            s == 12 * y,
                            x == 60 * y,
                    ;
                }
            }
            assert(s >= 0);
            assert(seq![s].last() == s);
            assert(total(Seq::<int>::empty()) == 0);
            assert(total(seq![s]) == s);
            assert(total(mid) == c * s);
            assert(spread(buf, x) == head + mid + seq![s]);
        }
    }
}

pub proof fn lemma_spread_len(buf: Seq<int>, x: int)
    ensures
        spread(buf, x).len() == buf.len() + 1,
{
    if x > 0 {
        lemma_dry_from(buf, 0);
    }
}

/// The state after some samples holds at most `KEEP` values, and every sample
/// is either held or emitted.
pub proof fn lemma_run_len(xs: Seq<int>)
    ensures
        run(xs).0.len() <= KEEP,
        run(xs).0.len() + run(xs).1.len() == xs.len(),
    decreases xs.len(),
{
    if xs.len() > 0 {
        lemma_run_len(xs.drop_last());
        lemma_spread_len(run(xs.drop_last()).0, xs.last() * UNITS_PER_UM);
    }
}

pub proof fn lemma_run_total(xs: Seq<int>)
    requires
        forall|i: int| 0 <= i < xs.len() ==> #[trigger] xs[i] >= 0,
    ensures
        nonneg(run(xs).0),
        total(run(xs).0) + total(run(xs).1) == UNITS_PER_UM * total(xs),
    decreases xs.len(),
{
    if xs.len() > 0 {
        let prev = xs.drop_last();
        lemma_run_total(prev);
        let st = run(prev);
        let y = xs.last();
        lemma_spread_total(st.0, y);
        let b = spread(st.0, y * UNITS_PER_UM);
        if b.len() > KEEP {
            let lo = b.subrange(0, b.len() - KEEP);
            let hi = b.subrange(b.len() - KEEP, b.len() as int);
            assert(b =~= lo + hi);
            lemma_total_append(lo, hi);
            lemma_total_append(st.1, lo);
        }
        assert(UNITS_PER_UM * total(xs) == UNITS_PER_UM * total(prev) + y * UNITS_PER_UM)
            by (nonlinear_arith)
            requires
                total(xs) == total(prev) + y,
        ;
    }
}

/// Smoothing moves rain between intervals but neither makes nor loses any: for
/// samples that are all non-negative, what is emitted sums to the samples' total
/// (in sixtieths of a micrometre), one value per sample.
pub proof fn lemma_smoothing_conserves(xs: Seq<int>)
    requires
        forall|i: int| 0 <= i < xs.len() ==> #[trigger] xs[i] >= 0,
    ensures
        total(smoothed(xs)) == UNITS_PER_UM * total(xs),
        smoothed(xs).len() == xs.len(),
{
    lemma_run_total(xs);
    lemma_run_len(xs);
    lemma_total_append(run(xs).1, run(xs).0);
}

/// The amounts that the smoother holds are bounded.
pub open spec fn bounded(s: Seq<i64>) -> bool {
    forall|i: int| 0 <= i < s.len() ==> -MAX_UNITS <= #[trigger] s[i] <= MAX_UNITS
}

/// Spreads the amount `x` (sixtieths of a micrometre) over the dry values that
/// end `buf`, then appends what `x` keeps.
pub fn spread_into(buf: &mut Vec<i64>, x: i64)
    requires
        bounded(old(buf)@),
        -MAX_UNITS <= x <= MAX_UNITS,
    ensures
        ints(final(buf)@) == spread(ints(old(buf)@), x as int),
        bounded(final(buf)@),
{
    let ghost b0 = ints(buf@);
    if x > 0 {
        let n = buf.len();
        let mut count: usize = 0;
        while count < MAX_SCAN && count < n && buf[n - 1 - count] <= 0
            invariant
                n == buf@.len(),
                b0 == ints(buf@),
                count <= MAX_SCAN,
                count <= n,
                dry_from(b0, 0) == dry_from(b0, count as int),
            decreases MAX_SCAN - count,
        {
            count = count + 1;
        }
        assert(dry_tail(b0) == count);
        let start = n - count;
        let value: i64 = if count > 0 && x > CAP {
            CAP / (count as i64)
        } else {
            x / ((count + 1) as i64)
        };
        let mut p: usize = start;
        while p < n
            invariant
                start <= p <= n,
                n == buf@.len(),
                bounded(buf@),
                -MAX_UNITS <= value <= MAX_UNITS,
                forall|j: int| 0 <= j < start ==> #[trigger] buf@[j] == b0[j],
                forall|j: int| start <= j < p ==> #[trigger] buf@[j] == value,
            decreases n - p,
        {
            buf.set(p, value);
            p = p + 1;
        }
        let last: i64 = if count > 0 && x > CAP {
            x - CAP
        } else {
            value
        };
        buf.push(last);
        proof {
            let c = count as int;
            let head = b0.subrange(0, b0.len() - c);
            if count > 0 && x > CAP {
                assert(ints(buf@) =~= head + Seq::new(c as nat, |i: int| (CAP as int) / c) + seq![
                    x - CAP,
                ]);
            } else {
                assert(ints(buf@) =~= head + Seq::new(c as nat, |i: int| (x as int) / (c + 1)) + seq![
                    (x as int) / (c + 1),
                ]);
            }
        }
    } else {
        buf.push(x);
        assert(ints(buf@) =~= b0.push(x as int));
    }
}

/// One sample of `x` micrometres arrives: it is spread over the held values,
/// and what exceeds the `KEEP` values held back moves to `out`.
pub fn insert_sample(buf: &mut Vec<i64>, out: &mut Vec<i64>, x: i64)
    requires
        bounded(old(buf)@),
        old(buf)@.len() <= KEEP,
        -MAX_SAMPLE_UM <= x <= MAX_SAMPLE_UM,
    ensures
        (ints(final(buf)@), ints(final(out)@)) == step((ints(old(buf)@), ints(old(out)@)), x as int),
        bounded(final(buf)@),
        final(buf)@.len() <= KEEP,
        bounded(old(out)@) ==> bounded(final(out)@),
{
    proof {
        lemma_spread_len(ints(buf@), x * UNITS_PER_UM);
    }
    let ghost b0 = ints(buf@);
    let ghost o0 = ints(out@);
    spread_into(buf, x * UNITS_PER_UM);
    if buf.len() > KEEP {
        let v = buf.remove(0);
        out.push(v);
        proof {
            let b = spread(b0, x * UNITS_PER_UM);
            assert(ints(buf@) =~= b.subrange(b.len() - KEEP, b.len() as int));
            assert(ints(out@) =~= o0 + b.subrange(0, b.len() - KEEP));
        }
    }
}

/// Moves every held value to `out`, in order.
pub fn flush(buf: &mut Vec<i64>, out: &mut Vec<i64>)
    ensures
        ints(final(out)@) == ints(old(out)@) + ints(old(buf)@),
        final(buf)@.len() == 0,
        bounded(old(out)@) && bounded(old(buf)@) ==> bounded(final(out)@),
{
    let ghost out0 = ints(out@);
    let mut k: usize = 0;
    while k < buf.len()
        invariant
            k <= buf@.len(),
            out@.len() == out0.len() + k,
            forall|j: int| 0 <= j < out0.len() ==> #[trigger] out@[j] as int == out0[j],
            forall|j: int| 0 <= j < k ==> #[trigger] out@[out0.len() + j] == buf@[j],
            bounded(old(out)@) && bounded(buf@) ==> bounded(out@),
            out0 == ints(old(out)@),
        decreases buf@.len() - k,
    {
        out.push(buf[k]);
        k = k + 1;
    }
    assert(ints(out@) =~= out0 + ints(buf@)) by {
        assert forall|j: int| out0.len() <= j < out@.len() implies ints(out@)[j] == (out0 + ints(
            buf@,
        ))[j] by {
            assert(out@[out0.len() + (j - out0.len())] == buf@[j - out0.len()]);
        }
    }
    buf.clear();
}

/// The smoothed values of samples given in whole micrometres, in sixtieths of a
/// micrometre.
pub fn smooth_rainfall(samples: &Vec<i64>) -> (r: Vec<i64>)
    requires
        forall|i: int| 0 <= i < samples@.len() ==> -MAX_SAMPLE_UM <= #[trigger] samples@[i] <= MAX_SAMPLE_UM,
    ensures
        ints(r@) == smoothed(ints(samples@)),
        bounded(r@),
{
    let mut buf: Vec<i64> = Vec::new();
    let mut out: Vec<i64> = Vec::new();
    let mut i: usize = 0;
    let ghost xs = ints(samples@);
    while i < samples.len()
        invariant
            i <= samples@.len(),
            xs == ints(samples@),
            forall|k: int| 0 <= k < samples@.len() ==> -MAX_SAMPLE_UM <= #[trigger] samples@[k] <= MAX_SAMPLE_UM,
            (ints(buf@), ints(out@)) == run(xs.subrange(0, i as int)),
            bounded(buf@),
            bounded(out@),
            buf@.len() <= KEEP,
        decreases samples@.len() - i,
    {
        proof {
            assert(xs.subrange(0, i + 1).drop_last() =~= xs.subrange(0, i as int));
            assert(xs.subrange(0, i + 1).last() == xs[i as int]);
        }
        insert_sample(&mut buf, &mut out, samples[i]);
        i = i + 1;
    }
    assert(xs.subrange(0, i as int) =~= xs);
    flush(&mut buf, &mut out);
    out
}

} // verus!
