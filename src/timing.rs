use vstd::prelude::*;
use vstd::arithmetic::div_mod::{lemma_fundamental_div_mod, lemma_fundamental_div_mod_converse};

verus! {

/// One tick lasts 100 / 5994 s: the tick rate is 59.94 Hz.
pub const INTERVAL_RATIO_X100: u32 = 5994;

/// Samples due over the first `n` ticks: `n * sample_rate * 100 / 5994`, rounded down.
pub open spec fn samples_in_ticks(sample_rate: nat, n: nat) -> int {
    (n * (sample_rate * 100)) as int / INTERVAL_RATIO_X100 as int
}

/// Samples of tick `k`, counting from 0.
pub open spec fn tick_samples(sample_rate: nat, k: nat) -> int {
    samples_in_ticks(sample_rate, k + 1) - samples_in_ticks(sample_rate, k)
}

/// Samples of the `n` ticks that start with tick `m`.
pub open spec fn samples_over(sample_rate: nat, m: nat, n: nat) -> int
    decreases n,
{
    if n == 0 {
        0
    } else {
        samples_over(sample_rate, m, (n - 1) as nat) + tick_samples(sample_rate, (m + n - 1) as nat)
    }
}

/// Splits time into ticks of a whole number of samples, carrying the
/// fraction over so that no error builds up.
pub struct SamplesPerTick {
    remainder: u32,
    quotient: u32,
    error: i32,
    samples: usize,
    rate: Ghost<nat>,
    ticks: Ghost<nat>,
}

proof fn lemma_next_tick(k: nat, q: nat, r: nat)
    requires
        r < INTERVAL_RATIO_X100,
    ensures
        ({
            let d = INTERVAL_RATIO_X100 as int;
            let a = (k * r) as int % d;
            let big = q * d + r;
            if a + r >= d {
                ((k + 1) * r) as int % d == a + r - d
                    && ((k + 1) * big) as int / d == (k * big) as int / d + q + 1
            } else {
                ((k + 1) * r) as int % d == a + r
                    && ((k + 1) * big) as int / d == (k * big) as int / d + q
            }
        }),
{
    let d = INTERVAL_RATIO_X100 as int;
    let kr = (k * r) as int;
    let x = kr / d;
    let a = kr % d;
    let big = q * d + r;
    lemma_fundamental_div_mod(kr, d);
    assert(0 <= a < d);
    assert((k * big) as int == (k * q + x) * d + a) by (nonlinear_arith)
        requires big == q * d + r, kr == k * r, kr == d * x + a;
    lemma_fundamental_div_mod_converse((k * big) as int, d, (k * q + x) as int, a);
    assert(((k + 1) * r) as int == kr + r) by (nonlinear_arith)
        requires kr == k * r;
    assert(((k + 1) * big) as int == ((k + 1) * q + x) * d + a + r) by (nonlinear_arith)
        requires big == q * d + r, kr == k * r, kr == d * x + a;
    assert((k + 1) * q == k * q + q) by (nonlinear_arith);
    if a + r >= d {
        lemma_fundamental_div_mod_converse(((k + 1) * r) as int, d, x + 1, a + r - d);
        lemma_fundamental_div_mod_converse(((k + 1) * big) as int, d, (k + 1) * q + x + 1, a + r - d);
    } else {
        lemma_fundamental_div_mod_converse(((k + 1) * r) as int, d, x, a + r);
        lemma_fundamental_div_mod_converse(((k + 1) * big) as int, d, (k + 1) * q + x, a + r);
    }
}

impl SamplesPerTick {
    /// The sample rate this was made for.
    pub closed spec fn rate(&self) -> nat {
        self.rate@
    }

    /// How many ticks have begun.
    pub closed spec fn ticks(&self) -> nat {
        self.ticks@
    }

    /// The carried fraction: how far the samples handed out run ahead of the
    /// exact share, in units of 1/5994 sample, minus 5994.
    pub closed spec fn error(&self) -> int {
        self.error as int
    }

    /// Samples left in the current tick.
    pub closed spec fn samples_left(&self) -> nat {
        self.samples as nat
    }

    pub closed spec fn wf(&self) -> bool {
        let d = INTERVAL_RATIO_X100 as int;
        &&& self.rate@ <= u32::MAX
        &&& self.quotient as int == (self.rate@ * 100) as int / d
        &&& self.remainder as int == (self.rate@ * 100) as int % d
        &&& self.error as int == (self.ticks@ * self.remainder) as int % d - d
        &&& self.ticks@ >= 1 ==> self.samples <= tick_samples(self.rate@, (self.ticks@ - 1) as nat)
    }

    /// Starts the first tick for `sample_rate` samples per second.
    pub fn new(sample_rate: u32) -> (r: SamplesPerTick)
        ensures
            r.wf(),
            r.rate() == sample_rate,
            r.ticks() == 1,
            r.samples_left() == tick_samples(sample_rate as nat, 0),
            -(INTERVAL_RATIO_X100 as int) <= r.error() < 0,
            r.samples_left() == (sample_rate as nat * 100) / INTERVAL_RATIO_X100 as nat
                || r.samples_left() == (sample_rate as nat * 100) / INTERVAL_RATIO_X100 as nat + 1,
    {
        let sample_rate_x100: u64 = sample_rate as u64 * 100;
        let mut instance = SamplesPerTick {
            quotient: (sample_rate_x100 / INTERVAL_RATIO_X100 as u64) as u32,
            remainder: (sample_rate_x100 % INTERVAL_RATIO_X100 as u64) as u32,
            error: -(INTERVAL_RATIO_X100 as i32),
            samples: 0,
            rate: Ghost(sample_rate as nat),
            ticks: Ghost(0),
        };
        proof {
            assert((sample_rate_x100 / 5994) <= u32::MAX);
        }
        instance.next();
        instance
    }

    /// Samples left in the current tick.
    pub fn samples(&self) -> (r: usize)
        ensures
            r == self.samples_left(),
    {
        self.samples
    }

    /// Takes `samples` of the current tick; returns whether any are left.
    pub fn consume(&mut self, samples: usize) -> (left: bool)
        requires
            old(self).wf(),
            samples <= old(self).samples_left(),
        ensures
            final(self).wf(),
            final(self).rate() == old(self).rate(),
            final(self).ticks() == old(self).ticks(),
            final(self).samples_left() == old(self).samples_left() - samples,
            left == (final(self).samples_left() != 0),
    {
        self.samples = self.samples - samples;
        self.samples != 0
    }

    /// Starts the next tick.
    pub fn next(&mut self)
        requires
            old(self).wf(),
        ensures
            final(self).wf(),
            final(self).rate() == old(self).rate(),
            final(self).ticks() == old(self).ticks() + 1,
            final(self).samples_left() == tick_samples(old(self).rate(), old(self).ticks()),
            -(INTERVAL_RATIO_X100 as int) <= final(self).error() < 0,
            final(self).samples_left() == (old(self).rate() * 100) / INTERVAL_RATIO_X100 as nat
                || final(self).samples_left() == (old(self).rate() * 100) / INTERVAL_RATIO_X100 as nat + 1,
    {
        let ghost k = self.ticks@;
        proof {
            lemma_next_tick(k, self.quotient as nat, self.remainder as nat);
            lemma_fundamental_div_mod((self.rate@ * 100) as int, INTERVAL_RATIO_X100 as int);
            assert((self.rate@ * 100) as int == self.quotient * 5994 + self.remainder);
            assert((self.ticks@ * self.remainder) as int % 5994 >= 0);
        }
        self.error = self.error + self.remainder as i32;
        let extra: u32 = if self.error >= 0 {
            self.error = self.error - INTERVAL_RATIO_X100 as i32;
            1
        } else {
            0
        };
        self.samples = (self.quotient + extra) as usize;
        self.ticks = Ghost(k + 1);
    }
}

/// No drift: over any `n` consecutive ticks from tick `m`, the samples handed
/// out are the exact share `n * sample_rate * 100 / 5994` to within less than
/// one sample, and over the first `n` ticks they are that share rounded down.
pub proof fn lemma_samples_per_tick_no_drift(sample_rate: nat, m: nat, n: nat)
    ensures
        samples_over(sample_rate, m, n) == samples_in_ticks(sample_rate, m + n) - samples_in_ticks(sample_rate, m),
        (n * (sample_rate * 100)) as int - INTERVAL_RATIO_X100 < INTERVAL_RATIO_X100 * samples_over(sample_rate, m, n),
        INTERVAL_RATIO_X100 * samples_over(sample_rate, m, n) < (n * (sample_rate * 100)) as int + INTERVAL_RATIO_X100,
        samples_over(sample_rate, 0, n) == samples_in_ticks(sample_rate, n),
    decreases n,
{
    let d = INTERVAL_RATIO_X100 as int;
    let big = sample_rate * 100;
    lemma_samples_over_telescopes(sample_rate, m, n);
    lemma_samples_over_telescopes(sample_rate, 0, n);
    lemma_fundamental_div_mod(((m + n) * big) as int, d);
    lemma_fundamental_div_mod((m * big) as int, d);
    assert(((m + n) * big) as int == (m * big) as int + (n * big) as int) by (nonlinear_arith);
}

proof fn lemma_samples_over_telescopes(sample_rate: nat, m: nat, n: nat)
    ensures
        samples_over(sample_rate, m, n) == samples_in_ticks(sample_rate, m + n) - samples_in_ticks(sample_rate, m),
    decreases n,
{
    if n > 0 {
        lemma_samples_over_telescopes(sample_rate, m, (n - 1) as nat);
    }
}

} // verus!
