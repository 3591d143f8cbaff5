//! Procedural sound synthesis: every sound effect and the music loop are
//! generated as 16-bit mono WAVE bytes at load time, in fixed-point
//! arithmetic. A sample's full scale is `FULL_SCALE` (1.0); volumes are
//! percentages; envelopes run from 65535 (1.0) down.
use vstd::prelude::*;
use crate::tables::{SINE, DECAY, SEMITONES};
use crate::wav::{wav_bytes, wav_spec, pcm_clamp, FULL_SCALE, SAMPLE_RATE};
use vstd::arithmetic::power2::{pow2, lemma_pow2_pos, lemma_pow2_unfold, lemma_pow2_strictly_increases, lemma2_to64, lemma2_to64_rest};

verus! {

/// Oscillator shapes.
#[derive(Clone, Copy, Debug)]
pub enum Wave {
    Sine,
    Square,
    Saw,
}

/// One full oscillator cycle in phase units.
pub const PHASE_CYCLE: u64 = 4294967296;

/// Envelope value that stands for 1.0.
pub const ENV_ONE: u64 = 65535;

/// Every sample of `s` lies in `-FULL_SCALE..=FULL_SCALE`.
pub open spec fn in_range(s: Seq<i32>) -> bool {
    forall|i: int| 0 <= i < s.len() ==> -FULL_SCALE <= #[trigger] s[i] <= FULL_SCALE
}

/// No sample of `s` is `i32::MIN`, so each can be negated.
pub open spec fn no_min(s: Seq<i32>) -> bool {
    forall|i: int| 0 <= i < s.len() ==> i32::MIN < #[trigger] s[i]
}

/// `v` held within `-i32::MAX..=i32::MAX`: a louder sample saturates.
pub open spec fn saturate(v: int) -> int {
    if v > i32::MAX {
        i32::MAX as int
    } else if v < -i32::MAX {
        -i32::MAX
    } else {
        v
    }
}

/// `x * num / den`, rounded toward zero.
pub open spec fn scale(x: int, num: int, den: int) -> int {
    if x >= 0 {
        x * num / den
    } else {
        -((-x) * num / den)
    }
}

proof fn lemma_scale_shrinks(a: int, num: int, den: int)
    requires
        0 <= a,
        0 <= num <= den,
        0 < den,
    ensures
        0 <= a * num / den <= a,
{
    assert(a * num <= a * den) by (nonlinear_arith)
        requires
            0 <= a,
            num <= den,
    ;
    assert(0 <= a * num) by (nonlinear_arith)
        requires
            0 <= a,
            0 <= num,
    ;
    assert(a * num / den <= a * den / den) by (nonlinear_arith)
        requires
            a * num <= a * den,
            0 < den,
    ;
    assert(a * den / den == a) by (nonlinear_arith)
        requires
            0 < den,
    ;
    assert(0 <= a * num / den) by (nonlinear_arith)
        requires
            0 <= a * num,
            0 < den,
    ;
}

/// The size of a sample, whatever its sign.
pub open spec fn mag(v: int) -> int {
    if v < 0 {
        -v
    } else {
        v
    }
}

/// `b` lies between zero and `a`: a sample that was only made quieter.
pub open spec fn shrinks(a: i32, b: i32) -> bool {
    (a >= 0 ==> 0 <= b <= a) && (a < 0 ==> a <= b <= 0)
}

/// The loudest sample a volume of `vol` percent allows.
pub open spec fn vol_peak(vol: int) -> int {
    FULL_SCALE * vol / 100
}

/// A sample within full scale, scaled by a gain of at most `vol / 100`,
/// stays within `vol_peak(vol)`.
proof fn lemma_scale_within(x: int, num: int, k: int, vol: int)
    requires
        mag(x) <= FULL_SCALE,
        0 <= num <= vol * k,
        0 < k,
        0 <= vol,
    ensures
        mag(saturate(scale(x, num, 100 * k))) <= vol_peak(vol),
{
    let a = mag(x);
    assert(a * num <= FULL_SCALE * (vol * k)) by (nonlinear_arith)
        requires
            0 <= a <= FULL_SCALE,
            0 <= num <= vol * k,
    ;
    assert(0 <= a * num) by (nonlinear_arith)
        requires
            0 <= a,
            0 <= num,
    ;
    assert(a * num / (100 * k) <= FULL_SCALE * (vol * k) / (100 * k)) by (nonlinear_arith)
        requires
            a * num <= FULL_SCALE * (vol * k),
            0 < k,
    ;
    assert(FULL_SCALE * (vol * k) / (100 * k) == FULL_SCALE * vol / 100) by {
        assert(FULL_SCALE * (vol * k) == (FULL_SCALE * vol) * k) by (nonlinear_arith);
        lemma_cancel_factor(FULL_SCALE * vol, 100, k);
    }
    assert(0 <= a * num / (100 * k)) by (nonlinear_arith)
        requires
            0 <= a * num,
            0 < k,
    ;
}

/// `(m * k) / (d * k) == m / d` for positive `k` and `d`.
proof fn lemma_cancel_factor(m: int, d: int, k: int)
    requires
        0 <= m,
        0 < d,
        0 < k,
    ensures
        (m * k) / (d * k) == m / d,
{
    let q = m / d;
    let r = m % d;
    assert(m == q * d + r && 0 <= r < d) by (nonlinear_arith)
        requires
            q == m / d,
            r == m % d,
            0 < d,
    ;
    assert(m * k == q * (d * k) + r * k) by (nonlinear_arith)
        requires
            m == q * d + r,
    ;
    assert(0 <= r * k < d * k) by (nonlinear_arith)
        requires
            0 <= r < d,
            0 < k,
    ;
    vstd::arithmetic::div_mod::lemma_fundamental_div_mod_converse_div(m * k, d * k, q, r * k);
}

/// `x * num / den` rounded toward zero, for any gain `num / den`, saturated
/// to `-i32::MAX..=i32::MAX`; a gain of at most 1 never saturates.
pub fn gain_sample(x: i32, num: u128, den: u128) -> (r: i32)
    requires
        i32::MIN < x,
        0 < den,
        num < 79228162514264337593543950336u128,
    ensures
        r == saturate(scale(x as int, num as int, den as int)),
        i32::MIN < r,
        num <= den ==> r == scale(x as int, num as int, den as int),
        num <= den && x >= 0 ==> 0 <= r <= x,
        num <= den && x < 0 ==> x <= r <= 0,
{
    let neg = x < 0;
    let a: u128 = if neg {
        (-(x as i64)) as u128
    } else {
        x as u128
    };
    assert(a * num < 340282366920938463463374607431768211455) by (nonlinear_arith)
        requires
            a <= 2147483648,
            num < 79228162514264337593543950336u128,
    ;
    let m = a * num / den;
    proof {
        if num <= den {
            lemma_scale_shrinks(a as int, num as int, den as int);
        }
    }
    let c: i32 = if m > 2147483647 {
        2147483647
    } else {
        m as i32
    };
    if neg {
        -c
    } else {
        c
    }
}

/// `x * num / den` rounded toward zero, for a gain `num / den` of at most 1.
pub fn scale_sample(x: i32, num: u64, den: u64) -> (r: i32)
    requires
        i32::MIN < x,
        0 < den,
        num <= den,
    ensures
        r == scale(x as int, num as int, den as int),
        x >= 0 ==> 0 <= r <= x,
        x < 0 ==> x <= r <= 0,
{
    if x >= 0 {
        let a = x as u128;
        assert(a * (num as u128) < 340282366920938463463374607431768211455) by (nonlinear_arith)
            requires
                a <= 2147483647,
                num <= 18446744073709551615u64,
        ;
        let m = a * (num as u128) / (den as u128);
        proof {
            lemma_scale_shrinks(a as int, num as int, den as int);
        }
        m as i32
    } else {
        let a = (-x) as u128;
        assert(a * (num as u128) < 340282366920938463463374607431768211455) by (nonlinear_arith)
            requires
                a <= 2147483647,
                num <= 18446744073709551615u64,
        ;
        let m = a * (num as u128) / (den as u128);
        proof {
            lemma_scale_shrinks(a as int, num as int, den as int);
        }
        -(m as i32)
    }
}

proof fn lemma_blend_bounded(a: int, b: int, f: int, n: int, m: int)
    requires
        0 <= a <= m,
        0 <= b <= m,
        0 <= f <= n,
        0 < n,
    ensures
        0 <= (a * (n - f) + b * f) / n <= m,
{
    assert(0 <= a * (n - f) + b * f <= m * n) by (nonlinear_arith)
        requires
            0 <= a <= m,
            0 <= b <= m,
            0 <= f <= n,
    ;
    assert((a * (n - f) + b * f) / n <= m * n / n) by (nonlinear_arith)
        requires
            a * (n - f) + b * f <= m * n,
            0 < n,
    ;
    assert(m * n / n == m) by (nonlinear_arith)
        requires
            0 < n,
    ;
    assert(0 <= (a * (n - f) + b * f) / n) by (nonlinear_arith)
        requires
            0 <= a * (n - f) + b * f,
            0 < n,
    ;
}

/// The sine oscillator at `phase` (a fraction of `PHASE_CYCLE`), read from
/// the table with linear interpolation.
pub open spec fn sine_at(phase: u32) -> int {
    let k = phase / 16777216;
    let f = phase % 16777216;
    let v = (SINE@[k as int] * (16777216 - f) + SINE@[k + 1] * f) / 16777216;
    pcm_clamp(v - 32767)
}

/// The value of oscillator `w` at `phase`, a fraction of `PHASE_CYCLE`.
pub open spec fn osc_spec(w: Wave, phase: u32) -> int {
    match w {
        Wave::Sine => sine_at(phase),
        Wave::Square => if phase < 2147483648 {
            FULL_SCALE as int
        } else {
            -FULL_SCALE
        },
        Wave::Saw => (phase / 131072) * 2 - 32767,
    }
}

/// Oscillator `w` at `phase`.
pub fn osc(w: Wave, phase: u32) -> (r: i32)
    ensures
        r == osc_spec(w, phase),
        -FULL_SCALE <= r <= FULL_SCALE,
{
    match w {
        Wave::Sine => {
            let k = (phase / 16777216) as usize;
            let f = (phase % 16777216) as u64;
            let a = SINE[k] as u64;
            let b = SINE[k + 1] as u64;
            proof {
                lemma_blend_bounded(a as int, b as int, f as int, 16777216, 65535);
            }
            let v = (a * (16777216 - f) + b * f) / 16777216;
            let s = v as i32 - 32767;
            if s > FULL_SCALE {
                FULL_SCALE
            } else {
                s
            }
        },
        Wave::Square => {
            if phase < 2147483648 {
                FULL_SCALE
            } else {
                -FULL_SCALE
            }
        },
        Wave::Saw => ((phase / 131072) as i32) * 2 - 32767,
    }
}

/// Exponential decay `exp(-rate * i / n)` as a fraction of `ENV_ONE`,
/// read from the table with linear interpolation.
pub open spec fn decay(rate: int, i: int, n: int) -> int {
    let pos = 16 * rate * i;
    let j = pos / n;
    let fr = pos % n;
    (DECAY@[j] * (n - fr) + DECAY@[j + 1] * fr) / n
}

/// The decay envelope of `rate` at sample `i` of `n`.
pub fn decay_at(rate: u64, i: u64, n: u64) -> (r: u64)
    requires
        1 <= rate <= 5,
        i < n,
    ensures
        r == decay(rate as int, i as int, n as int),
        r <= ENV_ONE,
{
    assert(16 * (rate as u128) * (i as u128) <= 80 * 18446744073709551615u128) by (nonlinear_arith)
        requires
            rate <= 5,
            i <= 18446744073709551615u64,
    ;
    let pos: u128 = 16 * (rate as u128) * (i as u128);
    assert(pos < 16 * rate * n) by (nonlinear_arith)
        requires
            pos == 16 * rate * i,
            i < n,
            1 <= rate,
    ;
    assert(pos / (n as u128) < 16 * rate) by (nonlinear_arith)
        requires
            pos < 16 * rate * n,
            0 < n,
    ;
    let j = (pos / (n as u128)) as usize;
    let fr = pos % (n as u128);
    let a = DECAY[j] as u128;
    let b = DECAY[j + 1] as u128;
    assert(a * ((n as u128) - fr) <= 65535 * n) by (nonlinear_arith)
        requires
            a <= 65535,
            fr < n,
    ;
    assert(b * fr <= 65535 * n) by (nonlinear_arith)
        requires
            b <= 65535,
            fr < n,
    ;
    proof {
        lemma_blend_bounded(a as int, b as int, fr as int, n as int, 65535);
    }
    ((a * ((n as u128) - fr) + b * fr) / (n as u128)) as u64
}

/// Samples in `ms` milliseconds.
pub open spec fn ms_samples(ms: int) -> int {
    ms * 441 / 20
}

/// Length of the fades that `click_fix` applies at both ends (4 ms).
pub const CLICK_FADE: u64 = 88;

/// Gain (out of `CLICK_FADE`) for the sample `q` places from one end.
pub open spec fn click_gain(q: int) -> int {
    if q < CLICK_FADE {
        q
    } else {
        CLICK_FADE as int
    }
}

/// Short linear fades at both ends so loops and cuts don't click.
pub open spec fn click_fix_spec(s: Seq<i32>) -> Seq<i32> {
    Seq::new(
        s.len(),
        |p: int|
            scale(
                s[p] as int,
                click_gain(p) * click_gain(s.len() - 1 - p),
                (CLICK_FADE * CLICK_FADE) as int,
            ) as i32,
    )
}

/// Fade both ends of `buf` in and out.
pub fn click_fix(buf: &Vec<i32>) -> (out: Vec<i32>)
    requires
        no_min(buf@),
    ensures
        out@ == click_fix_spec(buf@),
        no_min(out@),
        in_range(buf@) ==> in_range(out@),
        forall|i: int| 0 <= i < buf@.len() ==> shrinks(buf@[i], #[trigger] out@[i]),
{
    let n = buf.len();
    let mut out: Vec<i32> = Vec::new();
    let mut p: usize = 0;
    while p < n
        invariant
            n == buf@.len(),
            p <= n,
            no_min(buf@),
            out@.len() == p,
            forall|q: int| 0 <= q < p ==> #[trigger] out@[q] == click_fix_spec(buf@)[q],
            no_min(out@),
            in_range(buf@) ==> in_range(out@),
            forall|q: int| 0 <= q < p ==> shrinks(buf@[q], #[trigger] out@[q]),
        decreases n - p,
    {
        let g1: u64 = if (p as u64) < CLICK_FADE {
            p as u64
        } else {
            CLICK_FADE
        };
        let back = (n - 1 - p) as u64;
        let g2: u64 = if back < CLICK_FADE {
            back
        } else {
            CLICK_FADE
        };
        assert(g1 * g2 <= CLICK_FADE * CLICK_FADE) by (nonlinear_arith)
            requires
                g1 <= CLICK_FADE,
                g2 <= CLICK_FADE,
        ;
        let v = scale_sample(buf[p], g1 * g2, CLICK_FADE * CLICK_FADE);
        out.push(v);
        p += 1;
    }
    assert(out@ =~= click_fix_spec(buf@));
    out
}

/// Phase (a fraction of `PHASE_CYCLE`) at sample `i` of an `n`-sample sweep
/// from `f0` to `f1` Hz: the sum over samples `j <= i` of `f(j) / SAMPLE_RATE`
/// cycles with `f(j) = f0 + (f1 - f0) * j / n`, reduced to one cycle.
pub open spec fn sweep_phase(f0: int, f1: int, n: int, i: int) -> u32 {
    let num = 2 * n * (i + 1) * f0 + (f1 - f0) * i * (i + 1);
    let d = 2 * n * SAMPLE_RATE;
    ((num % d) * PHASE_CYCLE / d) as u32
}

fn sweep_phase_at(f0: u32, f1: u32, n: u64, i: u64) -> (r: u32)
    requires
        i < n,
        n < 1099511627776,
    ensures
        r == sweep_phase(f0 as int, f1 as int, n as int, i as int),
{
    let nn = n as u128;
    let ii = i as u128;
    let a = f0 as u128;
    let b = f1 as u128;
    assert(2 * nn * (ii + 1) * a <= 2 * 1099511627776 * 1099511627776 * 4294967295) by (nonlinear_arith)
        requires
            ii < nn,
            nn < 1099511627776,
            a <= 4294967295,
    ;
    assert(b * ii * (ii + 1) <= 1099511627776 * 1099511627776 * 4294967295) by (nonlinear_arith)
        requires
            ii < nn,
            nn < 1099511627776,
            b <= 4294967295,
    ;
    assert(a * ii * (ii + 1) <= 2 * nn * (ii + 1) * a) by (nonlinear_arith)
        requires
            ii < nn,
    ;
    assert(2 * nn * (ii + 1) <= 2 * 1099511627776 * 1099511627776) by (nonlinear_arith)
        requires
            ii < nn,
            nn < 1099511627776,
    ;
    assert(b * ii <= 1099511627776 * 4294967295) by (nonlinear_arith)
        requires
            ii < 1099511627776,
            b <= 4294967295,
    ;
    assert(a * ii <= 1099511627776 * 4294967295) by (nonlinear_arith)
        requires
            ii < 1099511627776,
            a <= 4294967295,
    ;
    assert(a * ii * (ii + 1) <= 1099511627776 * 1099511627776 * 4294967295) by (nonlinear_arith)
        requires
            ii < 1099511627776,
            a <= 4294967295,
    ;
    let t1 = 2 * nn * (ii + 1) * a;
    let t2 = b * ii * (ii + 1);
    let t3 = a * ii * (ii + 1);
    let num = t1 + t2 - t3;
    assert(num == 2 * n * (i + 1) * f0 + (f1 - f0) * i * (i + 1)) by (nonlinear_arith)
        requires
            num == t1 + t2 - t3,
            t1 == 2 * nn * (ii + 1) * a,
            t2 == b * ii * (ii + 1),
            t3 == a * ii * (ii + 1),
            nn == n,
            ii == i,
            a == f0,
            b == f1,
    ;
    let d = 2 * nn * 22050;
    let m = num % d;
    assert((m as int) * 4294967296 / (d as int) < 4294967296) by (nonlinear_arith)
        requires
            m < d,
            0 < d,
    ;
    (m * 4294967296 / d) as u32
}

/// Raw sample `i` of a sweep: the oscillator scaled by the volume
/// percentage and the `exp(-4 t)` envelope.
pub open spec fn sweep_raw(w: Wave, f0: int, f1: int, n: int, vol: int, i: int) -> int {
    saturate(scale(osc_spec(w, sweep_phase(f0, f1, n, i)), vol * decay(4, i, n), 100 * ENV_ONE))
}

/// Frequency-swept tone from `f0` to `f1` Hz lasting `ms` milliseconds,
/// at `vol` percent, with an exponential decay envelope and click fades.
pub open spec fn sweep_spec(w: Wave, f0: u32, f1: u32, ms: u32, vol: u32) -> Seq<i32> {
    let n = ms_samples(ms as int);
    click_fix_spec(Seq::new(n as nat, |i: int| sweep_raw(w, f0 as int, f1 as int, n, vol as int, i) as i32))
}

/// Frequency-swept tone with exponential decay envelope.
pub fn sweep(w: Wave, f0: u32, f1: u32, ms: u32, vol: u32) -> (out: Vec<i32>)
    ensures
        out@ == sweep_spec(w, f0, f1, ms, vol),
        no_min(out@),
        vol <= 100 ==> in_range(out@),
        within(out@, vol_peak(vol as int)),
{
    let n: u64 = (ms as u64) * 441 / 20;
    let mut raw: Vec<i32> = Vec::new();
    let mut i: u64 = 0;
    while i < n
        invariant
            n == ms_samples(ms as int),
            n < 1099511627776,
            i <= n,
            raw@.len() == i,
            forall|j: int| 0 <= j < i ==> #[trigger] raw@[j] == sweep_raw(w, f0 as int, f1 as int, n as int, vol as int, j) as i32,
            no_min(raw@),
            vol <= 100 ==> in_range(raw@),
            within(raw@, vol_peak(vol as int)),
        decreases n - i,
    {
        let ph = sweep_phase_at(f0, f1, n, i);
        let o = osc(w, ph);
        let e = decay_at(4, i, n);
        assert((vol as u128) * (e as u128) < 79228162514264337593543950336u128) by (nonlinear_arith)
            requires
                vol <= 4294967295u32,
                e <= ENV_ONE,
        ;
        if vol <= 100 {
            assert((vol as u128) * (e as u128) <= 100 * (ENV_ONE as u128)) by (nonlinear_arith)
                requires
                    vol <= 100,
                    e <= ENV_ONE,
            ;
        }
        let v = gain_sample(o, (vol as u128) * (e as u128), 100 * (ENV_ONE as u128));
        proof {
            assert((vol as int) * (e as int) <= (vol as int) * (ENV_ONE as int)) by (nonlinear_arith)
                requires
                    e <= ENV_ONE,
            ;
            lemma_scale_within(o as int, (vol as int) * (e as int), ENV_ONE as int, vol as int);
        }
        raw.push(v);
        i += 1;
    }
    let ghost rs = Seq::new(n as nat, |i: int| sweep_raw(w, f0 as int, f1 as int, n as int, vol as int, i) as i32);
    assert(raw@ =~= rs);
    let out = click_fix(&raw);
    assert forall|i: int| 0 <= i < out@.len() implies -vol_peak(vol as int) <= #[trigger] out@[i] <= vol_peak(vol as int) by {
        assert(shrinks(raw@[i], out@[i]));
        assert(-vol_peak(vol as int) <= raw@[i] <= vol_peak(vol as int));
    }
    out
}

/// One xorshift32 step.
pub open spec fn xorshift(x: u32) -> u32 {
    let a = x ^ (x << 13u32);
    let b = a ^ (a >> 17u32);
    b ^ (b << 5u32)
}

/// Xorshift never maps a nonzero state to zero, the one state it would
/// be stuck in.
pub proof fn lemma_xorshift_nonzero(x: u32)
    requires
        x != 0,
    ensures
        xorshift(x) != 0,
{
    assert(x != 0 ==> ((x ^ (x << 13u32)) ^ ((x ^ (x << 13u32)) >> 17u32)) ^ (((x ^ (x
        << 13u32)) ^ ((x ^ (x << 13u32)) >> 17u32)) << 5u32) != 0) by (bit_vector);
}

/// Deterministic noise so builds and tests are reproducible: an xorshift32
/// generator, whose state is never zero.
pub struct Rng(u32);

impl View for Rng {
    type V = u32;

    closed spec fn view(&self) -> u32 {
        self.0
    }
}

impl Rng {
    #[verifier::type_invariant]
    spec fn nonzero(self) -> bool {
        self.0 != 0
    }

    /// A generator seeded with `seed`, or with 1 where `seed` is 0.
    pub fn new(seed: u32) -> (r: Self)
        ensures
            r@ == (if seed == 0 {
                1u32
            } else {
                seed
            }),
    {
        Rng(if seed == 0 {
            1
        } else {
            seed
        })
    }

    /// Advance the generator and return its new state.
    pub fn next_u32(&mut self) -> (r: u32)
        ensures
            r == xorshift(old(self)@),
            final(self)@ == r,
            r != 0,
    {
        proof {
            use_type_invariant(&*self);
            lemma_xorshift_nonzero(self.0);
        }
        let mut x = self.0;
        x = x ^ (x << 13u32);
        x = x ^ (x >> 17u32);
        x = x ^ (x << 5u32);
        self.0 = x;
        x
    }
}

/// State of a generator seeded with `seed` after `k` steps.
pub open spec fn rng_state(seed: u32, k: nat) -> u32
    decreases k,
{
    if k == 0 {
        if seed == 0 {
            1u32
        } else {
            seed
        }
    } else {
        xorshift(rng_state(seed, (k - 1) as nat))
    }
}

/// A generator state as a sample spread over `-FULL_SCALE..=FULL_SCALE`.
pub open spec fn noise_unit(x: u32) -> int {
    (x / 131072) * 2 - 32767
}

/// Raw sample `i` of an `n`-sample noise burst.
pub open spec fn noise_raw(seed: u32, n: int, vol: int, i: int) -> int {
    saturate(scale(noise_unit(rng_state(seed, (i + 1) as nat)), vol * decay(5, i, n), 100 * ENV_ONE))
}

/// Decaying white noise burst of `ms` milliseconds at `vol` percent.
pub open spec fn noise_spec(ms: u32, vol: u32, seed: u32) -> Seq<i32> {
    let n = ms_samples(ms as int);
    click_fix_spec(Seq::new(n as nat, |i: int| noise_raw(seed, n, vol as int, i) as i32))
}

/// Decaying white noise burst (explosions).
pub fn noise(ms: u32, vol: u32, seed: u32) -> (out: Vec<i32>)
    ensures
        out@ == noise_spec(ms, vol, seed),
        no_min(out@),
        vol <= 100 ==> in_range(out@),
        within(out@, vol_peak(vol as int)),
{
    let n: u64 = (ms as u64) * 441 / 20;
    let mut rng = Rng::new(seed);
    let mut raw: Vec<i32> = Vec::new();
    let mut i: u64 = 0;
    while i < n
        invariant
            n == ms_samples(ms as int),
            i <= n,
            rng@ == rng_state(seed, i as nat),
            raw@.len() == i,
            forall|j: int| 0 <= j < i ==> #[trigger] raw@[j] == noise_raw(seed, n as int, vol as int, j) as i32,
            no_min(raw@),
            vol <= 100 ==> in_range(raw@),
            within(raw@, vol_peak(vol as int)),
        decreases n - i,
    {
        let x = rng.next_u32();
        let unit: i32 = ((x / 131072) as i32) * 2 - 32767;
        let e = decay_at(5, i, n);
        assert((vol as u128) * (e as u128) < 79228162514264337593543950336u128) by (nonlinear_arith)
            requires
                vol <= 4294967295u32,
                e <= ENV_ONE,
        ;
        if vol <= 100 {
            assert((vol as u128) * (e as u128) <= 100 * (ENV_ONE as u128)) by (nonlinear_arith)
                requires
                    vol <= 100,
                    e <= ENV_ONE,
            ;
        }
        let v = gain_sample(unit, (vol as u128) * (e as u128), 100 * (ENV_ONE as u128));
        proof {
            assert((vol as int) * (e as int) <= (vol as int) * (ENV_ONE as int)) by (nonlinear_arith)
                requires
                    e <= ENV_ONE,
            ;
            lemma_scale_within(unit as int, (vol as int) * (e as int), ENV_ONE as int, vol as int);
        }
        raw.push(v);
        i += 1;
    }
    let ghost rs = Seq::new(n as nat, |i: int| noise_raw(seed, n as int, vol as int, i) as i32);
    assert(raw@ =~= rs);
    let out = click_fix(&raw);
    assert forall|i: int| 0 <= i < out@.len() implies -vol_peak(vol as int) <= #[trigger] out@[i] <= vol_peak(vol as int) by {
        assert(shrinks(raw@[i], out@[i]));
        assert(-vol_peak(vol as int) <= raw@[i] <= vol_peak(vol as int));
    }
    out
}

/// Lowest semitone offset from A4 that `note_freq` accepts.
pub const LOWEST_NOTE: i32 = -108;

/// Highest semitone offset from A4 that `note_freq` accepts.
pub const HIGHEST_NOTE: i32 = 407;

/// Frequency in micro-hertz of the note `semi` semitones above A4
/// (equal temperament): the table's semitone shifted up by whole octaves.
pub open spec fn note_freq_spec(semi: int) -> int {
    let s = semi - LOWEST_NOTE;
    SEMITONES@[s % 12] * pow2((s / 12) as nat)
}

/// Frequency in micro-hertz of the note `semi_from_a4` semitones above A4.
pub fn note_freq(semi_from_a4: i32) -> (f: u64)
    requires
        LOWEST_NOTE <= semi_from_a4 <= HIGHEST_NOTE,
    ensures
        f == note_freq_spec(semi_from_a4 as int),
        0 < f < 9223372036854775808u64,
{
    let s = (semi_from_a4 - LOWEST_NOTE) as u64;
    let octave = s / 12;
    let mut f = SEMITONES[(s % 12) as usize];
    let ghost base = f as int;
    proof {
        lemma2_to64_rest();
        lemma2_to64();
    }
    let mut k: u64 = 0;
    while k < octave
        invariant
            octave <= 42,
            k <= octave,
            0 < base <= 1622284,
            f == base * pow2(k as nat),
            pow2(42) == 0x40000000000,
            pow2(0) == 1,
        decreases octave - k,
    {
        proof {
            lemma_pow2_unfold((k + 1) as nat);
            if k + 1 < 42 {
                lemma_pow2_strictly_increases((k + 1) as nat, 42);
            }
            assert(base * pow2((k + 1) as nat) <= 1622284 * 0x40000000000) by (nonlinear_arith)
                requires
                    0 < base <= 1622284,
                    pow2((k + 1) as nat) <= 0x40000000000,
            ;
            assert(base * pow2((k + 1) as nat) == 2 * (base * pow2(k as nat))) by (nonlinear_arith)
                requires
                    pow2((k + 1) as nat) == 2 * pow2(k as nat),
            ;
        }
        f = f * 2;
        k += 1;
    }
    proof {
        if octave > 0 {
            lemma_pow2_strictly_increases(0, octave as nat);
        }
        if octave < 42 {
            lemma_pow2_strictly_increases(octave as nat, 42);
        }
        assert(0 < base * pow2(octave as nat) <= 1622284 * 0x40000000000) by (nonlinear_arith)
            requires
                0 < base <= 1622284,
                1 <= pow2(octave as nat) <= 0x40000000000,
        ;
    }
    f
}

/// One octave up is twice the frequency.
pub proof fn lemma_octave_doubles(semi: int)
    requires
        LOWEST_NOTE <= semi,
    ensures
        note_freq_spec(semi + 12) == 2 * note_freq_spec(semi),
{
    let s = semi - LOWEST_NOTE;
    assert((s + 12) % 12 == s % 12);
    assert((s + 12) / 12 == s / 12 + 1);
    lemma_pow2_unfold((s / 12 + 1) as nat);
    assert(SEMITONES@[s % 12] * (2 * pow2((s / 12) as nat)) == 2 * (SEMITONES@[s % 12] * pow2((s / 12) as nat))) by (nonlinear_arith);
}

/// Phase (a fraction of `PHASE_CYCLE`) at sample `i` of a steady tone of
/// `f` micro-hertz: `(i + 1) * f / SAMPLE_RATE` cycles reduced to one cycle.
pub open spec fn tone_phase(f: int, i: int) -> u32 {
    let d = 1000000 * SAMPLE_RATE;
    ((((i + 1) * f) % d) * PHASE_CYCLE / d) as u32
}

fn tone_phase_at(f: u64, i: u64) -> (r: u32)
    requires
        i < 1099511627776,
    ensures
        r == tone_phase(f as int, i as int),
{
    assert(((i as u128) + 1) * (f as u128) <= 1099511627776 * 18446744073709551615u128) by (nonlinear_arith)
        requires
            i < 1099511627776,
            f <= 18446744073709551615u64,
    ;
    let d: u128 = 1000000 * 22050;
    let m = (((i as u128) + 1) * (f as u128)) % d;
    assert((m as int) * 4294967296 / (d as int) < 4294967296) by (nonlinear_arith)
        requires
            m < d,
            0 < d,
    ;
    (m * 4294967296 / d) as u32
}

/// Samples in a note of `tenths` tenths of a beat at `beat_ms` ms per beat.
pub open spec fn note_len(tenths: int, beat_ms: int) -> int {
    tenths * beat_ms * 441 / 200
}

/// Fade in and out of a note (out of 882): linear over the first and
/// last 8 ms.
pub open spec fn note_edge(i: int, n: int) -> int {
    let d = if i < n - i {
        i
    } else {
        n - i
    };
    if d * 5 < 882 {
        d * 5
    } else {
        882
    }
}

/// Sample `i` of an `n`-sample sine blip of `f` micro-hertz at `vol` percent:
/// edge fades and a linear fall to 60% over the note.
pub open spec fn note_raw(f: int, n: int, vol: int, i: int) -> int {
    saturate(scale(sine_at(tone_phase(f, i)), vol * note_edge(i, n) * (5 * n - 2 * i), 100 * 882 * (5 * n)))
}

/// The samples of one note `(semitones from A4, tenths of a beat)`.
pub open spec fn note_seg(note: (i32, u32), beat_ms: int, vol: int) -> Seq<i32> {
    let n = note_len(note.1 as int, beat_ms);
    Seq::new(n as nat, |i: int| note_raw(note_freq_spec(note.0 as int), n, vol, i) as i32)
}

/// Notes `(semitones from A4, tenths of a beat)` played in turn as sine blips.
pub open spec fn melody_spec(notes: Seq<(i32, u32)>, beat_ms: int, vol: int) -> Seq<i32>
    decreases notes.len(),
{
    if notes.len() == 0 {
        seq![]
    } else {
        melody_spec(notes.drop_last(), beat_ms, vol) + note_seg(notes.last(), beat_ms, vol)
    }
}

/// Total samples of a melody.
pub open spec fn melody_len(notes: Seq<(i32, u32)>, beat_ms: int) -> int
    decreases notes.len(),
{
    if notes.len() == 0 {
        0
    } else {
        melody_len(notes.drop_last(), beat_ms) + note_len(notes.last().1 as int, beat_ms)
    }
}

/// Every note of `notes` is in the range that `note_freq` accepts.
pub open spec fn notes_playable(notes: Seq<(i32, u32)>) -> bool {
    forall|k: int|
        0 <= k < notes.len() ==> LOWEST_NOTE <= (#[trigger] notes[k]).0 <= HIGHEST_NOTE
}

proof fn lemma_melody_len(notes: Seq<(i32, u32)>, beat_ms: int, vol: int)
    requires
        0 <= beat_ms,
    ensures
        melody_spec(notes, beat_ms, vol).len() == melody_len(notes, beat_ms),
        0 <= melody_len(notes, beat_ms),
    decreases notes.len(),
{
    if notes.len() > 0 {
        lemma_melody_len(notes.drop_last(), beat_ms, vol);
        assert(0 <= note_len(notes.last().1 as int, beat_ms)) by (nonlinear_arith)
            requires 0 <= beat_ms, 0 <= notes.last().1;
    }
}

/// Sequence of (semitone offset from A4, tenths of a beat) played as sine blips.
pub fn melody(notes: &Vec<(i32, u32)>, beat_ms: u32, vol: u32) -> (out: Vec<i32>)
    requires
        notes_playable(notes@),
        melody_len(notes@, beat_ms as int) < 1099511627776,
    ensures
        out@ == melody_spec(notes@, beat_ms as int, vol as int),
        out@.len() == melody_len(notes@, beat_ms as int),
        no_min(out@),
        vol <= 100 ==> in_range(out@),
        within(out@, vol_peak(vol as int)),
{
    let mut out: Vec<i32> = Vec::new();
    let mut k: usize = 0;
    proof {
        lemma_melody_len(notes@, beat_ms as int, vol as int);
    }
    while k < notes.len()
        invariant
            k <= notes@.len(),
            notes_playable(notes@),
            melody_len(notes@, beat_ms as int) < 1099511627776,
            out@ == melody_spec(notes@.take(k as int), beat_ms as int, vol as int),
            no_min(out@),
            vol <= 100 ==> in_range(out@),
            within(out@, vol_peak(vol as int)),
        decreases notes@.len() - k,
    {
        let (semi, tenths) = notes[k];
        assert(notes@.take(k + 1).drop_last() =~= notes@.take(k as int));
        proof {
            lemma_melody_prefix_len(notes@, k + 1, beat_ms as int);
            lemma_melody_len(notes@.take(k as int), beat_ms as int, vol as int);
            lemma_melody_len(notes@.take(k + 1), beat_ms as int, vol as int);
            assert(notes@[k as int] == (semi, tenths));
        }
        let n: u64 = (tenths as u64) * (beat_ms as u64) * 441 / 200;
        let f = note_freq(semi);
        let ghost before = out@;
        let mut i: u64 = 0;
        while i < n
            invariant
                n == note_len(tenths as int, beat_ms as int),
                n < 1099511627776,
                f == note_freq_spec(semi as int),
                i <= n,
                out@.len() == before.len() + i,
                out@.take(before.len() as int) == before,
                forall|j: int| 0 <= j < i ==> #[trigger] out@[before.len() + j] == note_raw(f as int, n as int, vol as int, j) as i32,
                no_min(out@),
                vol <= 100 ==> in_range(out@),
                within(out@, vol_peak(vol as int)),
            decreases n - i,
        {
            let ph = tone_phase_at(f, i);
            let o = osc(Wave::Sine, ph);
            let d: u64 = if i < n - i {
                i
            } else {
                n - i
            };
            let edge: u64 = if d * 5 < 882 {
                d * 5
            } else {
                882
            };
            assert((vol as u128) * (edge as u128) <= 4294967295u128 * 882) by (nonlinear_arith)
                requires
                    vol <= 4294967295u32,
                    edge <= 882,
            ;
            let ve: u128 = (vol as u128) * (edge as u128);
            let span: u128 = 5 * (n as u128) - 2 * (i as u128);
            assert(ve <= 4294967295u128 * 882) by (nonlinear_arith)
                requires
                    ve == (vol as u128) * (edge as u128),
                    vol <= 4294967295u32,
                    edge <= 882,
            ;
            assert(ve * span < 79228162514264337593543950336u128) by (nonlinear_arith)
                requires
                    ve <= 4294967295u128 * 882,
                    span <= 5 * 1099511627776u128,
            ;
            if vol <= 100 {
                assert(ve <= 88200) by (nonlinear_arith)
                    requires
                        ve == (vol as u128) * (edge as u128),
                        vol <= 100,
                        edge <= 882,
                ;
                assert(ve * span <= 88200 * (5 * (n as u128))) by (nonlinear_arith)
                    requires
                        ve <= 88200,
                        span <= 5 * (n as u128),
                ;
            }
            let v = gain_sample(o, ve * span, 100 * 882 * (5 * (n as u128)));
            proof {
                assert((ve as int) * (span as int) <= (vol as int) * (882 * (5 * n as int))) by (nonlinear_arith)
                    requires
                        ve == (vol as int) * (edge as int),
                        0 <= edge <= 882,
                        0 <= span <= 5 * n,
                        0 <= vol,
                ;
                assert(100 * 882 * (5 * (n as int)) == 100 * (882 * (5 * n as int)));
                lemma_scale_within(o as int, (ve as int) * (span as int), 882 * (5 * n as int), vol as int);
            }
            out.push(v);
            proof {
                assert(out@.take(before.len() as int) =~= before);
            }
            i += 1;
        }
        proof {
            let seg = note_seg((semi, tenths), beat_ms as int, vol as int);
            assert(seg.len() == n);
            assert forall|j: int| 0 <= j < out@.len() implies out@[j] == (before + seg)[j] by {
                if j >= before.len() {
                    assert(out@[before.len() + (j - before.len())] == note_raw(f as int, n as int, vol as int, j - before.len()) as i32);
                } else {
                    assert(out@[j] == out@.take(before.len() as int)[j]);
                }
            }
            assert(out@ =~= before + seg);
        }
        k += 1;
    }
    assert(notes@.take(notes@.len() as int) =~= notes@);
    out
}

proof fn lemma_melody_prefix_len(notes: Seq<(i32, u32)>, k: int, beat_ms: int)
    requires
        0 <= k <= notes.len(),
        0 <= beat_ms,
    ensures
        0 <= melody_len(notes.take(k), beat_ms) <= melody_len(notes, beat_ms),
    decreases notes.len() - k,
{
    lemma_melody_len(notes.take(k), beat_ms, 0);
    if k == notes.len() {
        assert(notes.take(k) =~= notes);
    } else {
        lemma_melody_prefix_len(notes, k + 1, beat_ms);
        assert(notes.take(k + 1).drop_last() =~= notes.take(k));
        assert(0 <= note_len(notes[k].1 as int, beat_ms)) by (nonlinear_arith)
            requires
                0 <= beat_ms,
                0 <= notes[k].1,
        ;
    }
}

/// Samples of `a` with those of `b` added in, clamped to full scale, as
/// far as both reach; the rest of `a` unchanged.
pub open spec fn mix_spec(a: Seq<i32>, b: Seq<i32>) -> Seq<i32> {
    Seq::new(
        a.len(),
        |i: int|
            if i < b.len() {
                pcm_clamp(a[i] + b[i]) as i32
            } else {
                a[i]
            },
    )
}

/// Mix `b` into `a`.
pub fn mix(a: &Vec<i32>, b: &Vec<i32>) -> (out: Vec<i32>)
    requires
        in_range(a@),
        in_range(b@),
    ensures
        out@ == mix_spec(a@, b@),
        in_range(out@),
{
    let mut out: Vec<i32> = Vec::new();
    let mut i: usize = 0;
    while i < a.len()
        invariant
            i <= a@.len(),
            in_range(a@),
            in_range(b@),
            out@.len() == i,
            forall|j: int| 0 <= j < i ==> #[trigger] out@[j] == mix_spec(a@, b@)[j],
            in_range(out@),
        decreases a@.len() - i,
    {
        let v = if i < b.len() {
            let s = a[i] + b[i];
            if s > FULL_SCALE {
                FULL_SCALE
            } else if s < -FULL_SCALE {
                -FULL_SCALE
            } else {
                s
            }
        } else {
            a[i]
        };
        out.push(v);
        i += 1;
    }
    assert(out@ =~= mix_spec(a@, b@));
    out
}

/// A sound effect: samples framed as a WAVE file.
fn to_wav(samples: &Vec<i32>) -> (out: Vec<u8>)
    requires
        samples@.len() <= 1000000,
    ensures
        out@ == wav_spec(samples@),
        out@.len() == 44 + 2 * samples@.len(),
{
    wav_bytes(samples.as_slice())
}

// ---- game SFX (each returns complete WAV bytes) ----

/// Player shot: a falling square-wave chirp.
pub fn shoot() -> (out: Vec<u8>)
    ensures
        out@ == wav_spec(sweep_spec(Wave::Square, 900, 320, 90, 45)),
        out@.len() == 44 + 2 * 1984,
{
    to_wav(&sweep(Wave::Square, 900, 320, 90, 45))
}

/// Enemy explosion: noise over a low sine thump.
pub fn enemy_boom() -> (out: Vec<u8>)
    ensures
        out@ == wav_spec(mix_spec(noise_spec(250, 70, 1234), sweep_spec(Wave::Sine, 120, 55, 250, 60))),
        out@.len() == 44 + 2 * 5512,
{
    let n = noise(250, 70, 1234);
    let thump = sweep(Wave::Sine, 120, 55, 250, 60);
    to_wav(&mix(&n, &thump))
}

/// Player hit: a long falling saw.
pub fn player_hit() -> (out: Vec<u8>)
    ensures
        out@ == wav_spec(sweep_spec(Wave::Saw, 320, 55, 400, 70)),
        out@.len() == 44 + 2 * 8820,
{
    to_wav(&sweep(Wave::Saw, 320, 55, 400, 70))
}

/// Power-up pickup: two rising blips.
pub fn pickup() -> (out: Vec<u8>)
    ensures
        out@ == wav_spec(melody_spec(seq![(0i32, 5u32), (4i32, 5u32)], 180, 50)),
        out@.len() == 44 + 2 * 3968,
{
    let notes = vec![(0i32, 5u32), (4i32, 5u32)];
    assert(notes@ =~= seq![(0i32, 5u32), (4i32, 5u32)]);
    reveal_with_fuel(melody_len, 3);
    to_wav(&melody(&notes, 180, 50))
}

/// Extra life: a major arpeggio.
pub fn life_pickup() -> (out: Vec<u8>)
    ensures
        out@ == wav_spec(melody_spec(seq![(0i32, 4u32), (4i32, 4u32), (7i32, 8u32)], 160, 50)),
        out@.len() == 44 + 2 * 5644,
{
    let notes = vec![(0i32, 4u32), (4i32, 4u32), (7i32, 8u32)];
    assert(notes@ =~= seq![(0i32, 4u32), (4i32, 4u32), (7i32, 8u32)]);
    reveal_with_fuel(melody_len, 4);
    to_wav(&melody(&notes, 160, 50))
}

/// Shield breaking: a falling square chirp with a burst of noise.
pub fn shield_break() -> (out: Vec<u8>)
    ensures
        out@ == wav_spec(mix_spec(sweep_spec(Wave::Square, 1250, 180, 220, 55), noise_spec(220, 35, 777))),
        out@.len() == 44 + 2 * 4851,
{
    let s = sweep(Wave::Square, 1250, 180, 220, 55);
    let n = noise(220, 35, 777);
    to_wav(&mix(&s, &n))
}

/// Bomb: long noise over a deep falling sine.
pub fn bomb() -> (out: Vec<u8>)
    ensures
        out@ == wav_spec(mix_spec(noise_spec(700, 80, 4242), sweep_spec(Wave::Sine, 200, 35, 700, 70))),
        out@.len() == 44 + 2 * 15435,
{
    let n = noise(700, 80, 4242);
    let drop = sweep(Wave::Sine, 200, 35, 700, 70);
    to_wav(&mix(&n, &drop))
}

/// Wave cleared: a rising fanfare.
pub fn wave_clear() -> (out: Vec<u8>)
    ensures
        out@ == wav_spec(melody_spec(seq![(3i32, 5u32), (7i32, 5u32), (10i32, 5u32), (15i32, 10u32)], 140, 50)),
        out@.len() == 44 + 2 * 7716,
{
    let notes = vec![(3i32, 5u32), (7i32, 5u32), (10i32, 5u32), (15i32, 10u32)];
    assert(notes@ =~= seq![(3i32, 5u32), (7i32, 5u32), (10i32, 5u32), (15i32, 10u32)]);
    reveal_with_fuel(melody_len, 5);
    to_wav(&melody(&notes, 140, 50))
}

/// Game over: a falling lament.
pub fn game_over() -> (out: Vec<u8>)
    ensures
        out@ == wav_spec(melody_spec(seq![(-2i32, 10u32), (-3i32, 10u32), (-4i32, 10u32), (-9i32, 20u32)], 220, 55)),
        out@.len() == 44 + 2 * 24255,
{
    let notes = vec![(-2i32, 10u32), (-3i32, 10u32), (-4i32, 10u32), (-9i32, 20u32)];
    assert(notes@ =~= seq![(-2i32, 10u32), (-3i32, 10u32), (-4i32, 10u32), (-9i32, 20u32)]);
    reveal_with_fuel(melody_len, 5);
    to_wav(&melody(&notes, 220, 55))
}

/// Menu cursor move: a short steady blip.
pub fn ui_move() -> (out: Vec<u8>)
    ensures
        out@ == wav_spec(sweep_spec(Wave::Sine, 520, 520, 45, 35)),
        out@.len() == 44 + 2 * 992,
{
    to_wav(&sweep(Wave::Sine, 520, 520, 45, 35))
}

/// Menu selection: two quick rising blips.
pub fn ui_select() -> (out: Vec<u8>)
    ensures
        out@ == wav_spec(melody_spec(seq![(7i32, 5u32), (12i32, 7u32)], 90, 45)),
        out@.len() == 44 + 2 * 2381,
{
    let notes = vec![(7i32, 5u32), (12i32, 7u32)];
    assert(notes@ =~= seq![(7i32, 5u32), (12i32, 7u32)]);
    reveal_with_fuel(melody_len, 3);
    to_wav(&melody(&notes, 90, 45))
}

// ---- music ----

/// Samples in the music loop: 8 seconds.
pub const MUSIC_SAMPLES: u64 = 176400;

/// Samples per chord: 2 seconds.
pub const CHORD_SAMPLES: u64 = 44100;

/// Samples per bass eighth note.
pub const EIGHTH_SAMPLES: u64 = 5512;

/// Samples per arpeggio sixteenth note.
pub const SIXTEENTH_SAMPLES: u64 = 2756;

/// Chord roots (semitones from A4): Am F C G.
pub const CHORD_ROOTS: [i32; 4] = [-24, -28, -21, -26];

/// Which chords are minor.
pub const CHORD_MINOR: [bool; 4] = [true, false, false, false];

/// Order of the chord tones in the arpeggio: up and down.
pub const ARP_ORDER: [usize; 6] = [0, 1, 2, 3, 2, 1];

/// Peak that the loop is normalized to: 0.6 of full scale.
pub const MUSIC_PEAK: i32 = 19660;

/// Chord tone `t` (root, third, fifth, octave) in semitones above the root.
pub open spec fn chord_tone(minor: bool, t: int) -> int {
    if t == 0 {
        0
    } else if t == 1 {
        if minor {
            3
        } else {
            4
        }
    } else if t == 2 {
        7
    } else {
        12
    }
}

/// Fade of the pad (out of 2205): linear over the first and last 50 ms of a chord.
pub open spec fn pad_edge(i: int) -> int {
    let d = if i < CHORD_SAMPLES - i {
        i
    } else {
        CHORD_SAMPLES - i
    };
    if d * 2 < 2205 {
        d * 2
    } else {
        2205
    }
}

/// Pad voice `t` (a soft sine on a chord tone) at sample `i` of the chord.
pub open spec fn pad_voice(root: int, minor: bool, t: int, i: int) -> int {
    scale(sine_at(tone_phase(note_freq_spec(root + chord_tone(minor, t)), i)), 5 * pad_edge(i), 220500)
}

/// Bass at sample `i` of the chord: eighth notes on the root, every
/// other one an octave up, each with an `exp(-3 t)` decay.
pub open spec fn bass_voice(root: int, i: int) -> int {
    let b = i / EIGHTH_SAMPLES as int;
    if b < 8 {
        let j = i % EIGHTH_SAMPLES as int;
        let up = if b % 2 == 1 {
            12int
        } else {
            0
        };
        scale(
            osc_spec(Wave::Square, tone_phase(note_freq_spec(root + up), j)),
            16 * decay(3, j, EIGHTH_SAMPLES as int),
            100 * ENV_ONE,
        )
    } else {
        0
    }
}

/// Arpeggio at sample `i` of the chord: sixteenths cycling the chord tones
/// an octave up, each with an `exp(-4 t)` decay.
pub open spec fn arp_voice(root: int, minor: bool, i: int) -> int {
    let k = i / SIXTEENTH_SAMPLES as int;
    if k < 16 {
        let j = i % SIXTEENTH_SAMPLES as int;
        let dt = chord_tone(minor, ARP_ORDER@[k % 6] as int) + 12;
        scale(
            osc_spec(Wave::Square, tone_phase(note_freq_spec(root + dt), j)),
            7 * decay(4, j, SIXTEENTH_SAMPLES as int),
            100 * ENV_ONE,
        )
    } else {
        0
    }
}

/// Sample `p` of the loop before normalization: pad, bass and arpeggio of
/// the chord it falls in.
#[verifier::opaque]
pub open spec fn music_raw(p: int) -> int {
    let c = p / CHORD_SAMPLES as int;
    let i = p % CHORD_SAMPLES as int;
    let root = CHORD_ROOTS@[c] as int;
    let minor = CHORD_MINOR@[c];
    pad_voice(root, minor, 0, i) + pad_voice(root, minor, 1, i) + pad_voice(root, minor, 2, i)
        + bass_voice(root, i) + arp_voice(root, minor, i)
}

/// The loop before normalization.
pub open spec fn music_raw_seq() -> Seq<i32> {
    Seq::new(MUSIC_SAMPLES as nat, |p: int| music_raw(p) as i32)
}

/// Largest magnitude in `s`.
pub open spec fn max_abs(s: Seq<i32>) -> int
    decreases s.len(),
{
    if s.len() == 0 {
        0
    } else {
        let m = max_abs(s.drop_last());
        let v = if s.last() < 0 {
            -s.last()
        } else {
            s.last() as int
        };
        if v > m {
            v
        } else {
            m
        }
    }
}

/// The peak used for normalization: the largest magnitude, at least 33 (0.001).
pub open spec fn music_peak(s: Seq<i32>) -> int {
    let m = max_abs(s);
    if m > 33 {
        m
    } else {
        33
    }
}

/// A sample scaled so that the peak becomes `MUSIC_PEAK`, by at most 1.5.
pub open spec fn normalized(v: int, peak: int) -> int {
    if 3 * peak <= 2 * MUSIC_PEAK {
        scale(v, 3, 2)
    } else {
        scale(v, MUSIC_PEAK as int, peak)
    }
}

/// The samples of the music loop: normalized to a safe peak, then faded
/// at the seam.
pub open spec fn music_samples_spec() -> Seq<i32> {
    let raw = music_raw_seq();
    let peak = music_peak(raw);
    click_fix_spec(Seq::new(raw.len(), |p: int| normalized(raw[p] as int, peak) as i32))
}

fn pad_voice_at(root: i32, minor: bool, t: u64, i: u64) -> (r: i32)
    requires
        -28 <= root <= -21,
        t < 3,
        i < CHORD_SAMPLES,
    ensures
        r == pad_voice(root as int, minor, t as int, i as int),
        -FULL_SCALE <= r <= FULL_SCALE,
{
    let tone: i32 = if t == 0 {
        0
    } else if t == 1 {
        if minor {
            3
        } else {
            4
        }
    } else {
        7
    };
    let f = note_freq(root + tone);
    let o = osc(Wave::Sine, tone_phase_at(f, i));
    let d: u64 = if i < CHORD_SAMPLES - i {
        i
    } else {
        CHORD_SAMPLES - i
    };
    let edge: u64 = if d * 2 < 2205 {
        d * 2
    } else {
        2205
    };
    scale_sample(o, 5 * edge, 100 * 2205)
}

fn bass_voice_at(root: i32, i: u64) -> (r: i32)
    requires
        -28 <= root <= -21,
        i < CHORD_SAMPLES,
    ensures
        r == bass_voice(root as int, i as int),
        -FULL_SCALE <= r <= FULL_SCALE,
{
    let b = i / EIGHTH_SAMPLES;
    if b < 8 {
        let j = i % EIGHTH_SAMPLES;
        let up: i32 = if b % 2 == 1 {
            12
        } else {
            0
        };
        let f = note_freq(root + up);
        let o = osc(Wave::Square, tone_phase_at(f, j));
        let e = decay_at(3, j, EIGHTH_SAMPLES);
        scale_sample(o, 16 * e, 100 * ENV_ONE)
    } else {
        0
    }
}

fn arp_voice_at(root: i32, minor: bool, i: u64) -> (r: i32)
    requires
        -28 <= root <= -21,
        i < CHORD_SAMPLES,
    ensures
        r == arp_voice(root as int, minor, i as int),
        -FULL_SCALE <= r <= FULL_SCALE,
{
    let k = i / SIXTEENTH_SAMPLES;
    if k < 16 {
        let j = i % SIXTEENTH_SAMPLES;
        let t = ARP_ORDER[(k % 6) as usize];
        let tone: i32 = if t == 0 {
            0
        } else if t == 1 {
            if minor {
                3
            } else {
                4
            }
        } else if t == 2 {
            7
        } else {
            12
        };
        let f = note_freq(root + tone + 12);
        let o = osc(Wave::Square, tone_phase_at(f, j));
        let e = decay_at(4, j, SIXTEENTH_SAMPLES);
        scale_sample(o, 7 * e, 100 * ENV_ONE)
    } else {
        0
    }
}

fn music_sample(p: u64) -> (r: i32)
    requires
        p < MUSIC_SAMPLES,
    ensures
        r == music_raw(p as int),
        -5 * FULL_SCALE <= r <= 5 * FULL_SCALE,
{
    reveal(music_raw);
    let c = (p / CHORD_SAMPLES) as usize;
    let i = p % CHORD_SAMPLES;
    let root = CHORD_ROOTS[c];
    let minor = CHORD_MINOR[c];
    let a = pad_voice_at(root, minor, 0, i);
    let b = pad_voice_at(root, minor, 1, i);
    let d = pad_voice_at(root, minor, 2, i);
    let e = bass_voice_at(root, i);
    let g = arp_voice_at(root, minor, i);
    a + b + d + e + g
}

/// Magnitude of a sample.
fn abs_sample(v: i32) -> (r: i32)
    requires
        i32::MIN < v,
    ensures
        r == (if v < 0 {
            -v
        } else {
            v as int
        }),
{
    if v < 0 {
        -v
    } else {
        v
    }
}

/// Every sample of `s` lies within `m` of zero.
pub open spec fn within(s: Seq<i32>, m: int) -> bool {
    forall|i: int| 0 <= i < s.len() ==> -m <= #[trigger] s[i] <= m
}

/// No sample's magnitude exceeds `max_abs`, which is one of them (or 0).
pub proof fn lemma_max_abs_bounds(s: Seq<i32>)
    ensures
        within(s, max_abs(s)),
        0 <= max_abs(s),
    decreases s.len(),
{
    if s.len() > 0 {
        lemma_max_abs_bounds(s.drop_last());
        assert forall|i: int| 0 <= i < s.len() implies -max_abs(s) <= #[trigger] s[i] <= max_abs(s) by {
            if i < s.len() - 1 {
                assert(s[i] == s.drop_last()[i]);
            }
        }
    }
}

fn normalize_sample(v: i32, peak: i32) -> (r: i32)
    requires
        33 <= peak,
        -peak <= v <= peak,
    ensures
        r == normalized(v as int, peak as int),
        -MUSIC_PEAK <= r <= MUSIC_PEAK,
{
    if 3 * (peak as i64) <= 2 * (MUSIC_PEAK as i64) {
        if v >= 0 {
            v * 3 / 2
        } else {
            -((-v) * 3 / 2)
        }
    } else {
        let a: u64 = if v >= 0 {
            v as u64
        } else {
            (-v) as u64
        };
        assert(a * (MUSIC_PEAK as u64) <= (peak as u64) * (MUSIC_PEAK as u64)) by (nonlinear_arith)
            requires
                a <= peak,
        ;
        assert((a as int) * (MUSIC_PEAK as int) / (peak as int) <= MUSIC_PEAK) by (nonlinear_arith)
            requires
                a * (MUSIC_PEAK as u64) <= (peak as u64) * (MUSIC_PEAK as u64),
                33 <= peak,
        ;
        let m = (a * (MUSIC_PEAK as u64) / (peak as u64)) as i32;
        if v >= 0 {
            m
        } else {
            -m
        }
    }
}

/// 8-second seamless chiptune loop: Am F C G, 120 BPM.
/// Bass roots on 8ths, chord arp on 16ths, soft pad underneath.
pub fn music_loop() -> (out: Vec<u8>)
    ensures
        out@ == wav_spec(music_samples_spec()),
        out@.len() == 44 + 2 * MUSIC_SAMPLES,
{
    let mut raw: Vec<i32> = Vec::new();
    let mut p: u64 = 0;
    while p < MUSIC_SAMPLES
        invariant
            p <= MUSIC_SAMPLES,
            raw@.len() == p,
            forall|j: int| 0 <= j < p ==> #[trigger] raw@[j] == music_raw(j) as i32,
            within(raw@, 5 * FULL_SCALE),
        decreases MUSIC_SAMPLES - p,
    {
        let v = music_sample(p);
        raw.push(v);
        p += 1;
    }
    assert(raw@ =~= music_raw_seq());
    // peak
    let mut m: i32 = 0;
    let mut i: usize = 0;
    while i < raw.len()
        invariant
            i <= raw@.len(),
            within(raw@, 5 * FULL_SCALE),
            m == max_abs(raw@.take(i as int)),
            0 <= m <= 5 * FULL_SCALE,
        decreases raw@.len() - i,
    {
        assert(raw@.take(i + 1).drop_last() =~= raw@.take(i as int));
        let a = abs_sample(raw[i]);
        if a > m {
            m = a;
        }
        i += 1;
    }
    assert(raw@.take(raw@.len() as int) =~= raw@);
    proof {
        lemma_max_abs_bounds(raw@);
    }
    let peak = if m > 33 {
        m
    } else {
        33
    };
    let mut norm: Vec<i32> = Vec::new();
    let mut k: usize = 0;
    while k < raw.len()
        invariant
            k <= raw@.len(),
            raw@ == music_raw_seq(),
            peak == music_peak(raw@),
            within(raw@, max_abs(raw@)),
            norm@.len() == k,
            forall|j: int| 0 <= j < k ==> #[trigger] norm@[j] == normalized(raw@[j] as int, peak as int) as i32,
            in_range(norm@),
        decreases raw@.len() - k,
    {
        let v = normalize_sample(raw[k], peak);
        norm.push(v);
        k += 1;
    }
    assert(norm@ =~= Seq::new(raw@.len(), |p: int| normalized(raw@[p] as int, peak as int) as i32));
    let faded = click_fix(&norm);
    to_wav(&faded)
}

/// The music loop never exceeds 0.6 of full scale: its loudest sample is
/// scaled to `MUSIC_PEAK` (or by 1.5 where that is less), and the seam
/// fades only shrink samples.
pub proof fn lemma_music_peak()
    ensures
        within(music_samples_spec(), MUSIC_PEAK as int),
        music_samples_spec().len() == MUSIC_SAMPLES,
{
    let raw = music_raw_seq();
    let peak = music_peak(raw);
    lemma_max_abs_bounds(raw);
    let norm = Seq::new(raw.len(), |p: int| normalized(raw[p] as int, peak) as i32);
    assert forall|p: int| 0 <= p < norm.len() implies -MUSIC_PEAK <= #[trigger] norm[p] <= MUSIC_PEAK by {
        let v = raw[p] as int;
        assert(-peak <= v <= peak);
        if 3 * peak <= 2 * MUSIC_PEAK {
            if v >= 0 {
                assert(v * 3 / 2 <= MUSIC_PEAK) by (nonlinear_arith)
                    requires
                        0 <= v <= peak,
                        3 * peak <= 2 * MUSIC_PEAK,
                ;
                assert(0 <= v * 3 / 2) by (nonlinear_arith)
                    requires
                        0 <= v,
                ;
            } else {
                assert((-v) * 3 / 2 <= MUSIC_PEAK) by (nonlinear_arith)
                    requires
                        0 <= -v <= peak,
                        3 * peak <= 2 * MUSIC_PEAK,
                ;
                assert(0 <= (-v) * 3 / 2) by (nonlinear_arith)
                    requires
                        0 <= -v,
                ;
            }
        } else {
            let a = if v >= 0 {
                v
            } else {
                -v
            };
            assert(a * MUSIC_PEAK / peak <= MUSIC_PEAK) by (nonlinear_arith)
                requires
                    0 <= a <= peak,
                    33 <= peak,
            ;
            assert(0 <= a * MUSIC_PEAK / peak) by (nonlinear_arith)
                requires
                    0 <= a,
                    33 <= peak,
            ;
        }
    }
    let out = click_fix_spec(norm);
    assert forall|p: int| 0 <= p < out.len() implies -MUSIC_PEAK <= #[trigger] out[p] <= MUSIC_PEAK by {
        let g = click_gain(p) * click_gain(norm.len() - 1 - p);
        assert(0 <= g <= CLICK_FADE * CLICK_FADE) by (nonlinear_arith)
            requires
                g == click_gain(p) * click_gain(norm.len() - 1 - p),
                0 <= click_gain(p) <= CLICK_FADE,
                0 <= click_gain(norm.len() - 1 - p) <= CLICK_FADE,
        ;
        let v = norm[p] as int;
        if v >= 0 {
            lemma_scale_shrinks(v, g, (CLICK_FADE * CLICK_FADE) as int);
        } else {
            lemma_scale_shrinks(-v, g, (CLICK_FADE * CLICK_FADE) as int);
        }
    }
}


/// `num` parts of a `d`-part cycle, reduced to one cycle, in phase units.
pub open spec fn cycle_phase(num: int, d: int) -> u32 {
    ((num % d) * PHASE_CYCLE / d) as u32
}

/// `2 n` times the frequency of an `n`-sample sweep from `f0` to `f1` Hz
/// at sample `j`, which is `f0 + (f1 - f0) * j / n`.
pub open spec fn sweep_freq_2n(f0: int, f1: int, n: int, j: int) -> int {
    2 * (n * f0 + (f1 - f0) * j)
}

/// The cycles a sweep has run through after sample `i`, in units of
/// `1 / (2 n SAMPLE_RATE)` of a cycle: each sample adds its own frequency.
pub open spec fn sweep_cycles(f0: int, f1: int, n: int, i: int) -> int
    decreases i,
{
    if i <= 0 {
        sweep_freq_2n(f0, f1, n, 0)
    } else {
        sweep_cycles(f0, f1, n, i - 1) + sweep_freq_2n(f0, f1, n, i)
    }
}

proof fn lemma_sweep_cycles_closed(f0: int, f1: int, n: int, i: int)
    requires
        0 <= i,
    ensures
        sweep_cycles(f0, f1, n, i) == 2 * n * (i + 1) * f0 + (f1 - f0) * i * (i + 1),
    decreases i,
{
    if i > 0 {
        lemma_sweep_cycles_closed(f0, f1, n, i - 1);
        assert(2 * n * i * f0 + (f1 - f0) * (i - 1) * i + 2 * (n * f0 + (f1 - f0) * i)
            == 2 * n * (i + 1) * f0 + (f1 - f0) * i * (i + 1)) by (nonlinear_arith);
    } else {
        assert(2 * n * (0 + 1) * f0 + (f1 - f0) * 0 * (0 + 1) == 2 * (n * f0 + (f1 - f0) * 0)) by (nonlinear_arith);
    }
}

/// A sweep's frequency starts at `f0` and moves evenly to `f1`: sample `i`
/// of an `n`-sample sweep sounds the oscillator at the phase reached by
/// adding, for every sample `j <= i`, the frequency `f0 + (f1 - f0) * j / n`
/// over the sample rate, scaled by the volume and the decay envelope.
pub proof fn lemma_sweep_follows_frequency(w: Wave, f0: u32, f1: u32, n: int, vol: u32, i: int)
    requires
        0 <= i < n,
    ensures
        sweep_freq_2n(f0 as int, f1 as int, n, 0) == 2 * n * f0,
        sweep_freq_2n(f0 as int, f1 as int, n, n) == 2 * n * f1,
        sweep_raw(w, f0 as int, f1 as int, n, vol as int, i) == saturate(
            scale(
                osc_spec(w, cycle_phase(sweep_cycles(f0 as int, f1 as int, n, i), 2 * n * SAMPLE_RATE)),
                vol * decay(4, i, n),
                100 * ENV_ONE,
            ),
        ),
{
    lemma_sweep_cycles_closed(f0 as int, f1 as int, n, i);
    assert(sweep_freq_2n(f0 as int, f1 as int, n, n) == 2 * n * f1) by (nonlinear_arith);
    assert(sweep_freq_2n(f0 as int, f1 as int, n, 0) == 2 * n * f0) by (nonlinear_arith);
}

/// A pad tone: a soft sine on `note` (semitones from A4) at sample `i`
/// of a chord.
pub open spec fn pad_tone(note: int, i: int) -> int {
    scale(sine_at(tone_phase(note_freq_spec(note), i)), 5 * pad_edge(i), 220500)
}

/// The arpeggio's note for sixteenth `k` of a chord on `root` whose third
/// lies `third` semitones up: root, third, fifth, octave, fifth, third,
/// all an octave higher.
pub open spec fn arp_note(root: int, third: int, k: int) -> int {
    let m = k % 6;
    root + 12 + if m == 0 {
        0
    } else if m == 1 || m == 5 {
        third
    } else if m == 2 || m == 4 {
        7int
    } else {
        12int
    }
}

/// The arpeggio at sample `i` of a chord: sixteen square blips, each on
/// its `arp_note` with an `exp(-4 t)` decay.
pub open spec fn arp_part(root: int, third: int, i: int) -> int {
    let k = i / 2756;
    if k < 16 {
        let j = i % 2756;
        scale(
            osc_spec(Wave::Square, tone_phase(note_freq_spec(arp_note(root, third, k)), j)),
            7 * decay(4, j, 2756),
            100 * ENV_ONE,
        )
    } else {
        0
    }
}

/// The loop plays A minor, F major, C major and G major, two seconds each:
/// the chords' roots are A2, F2, C3 and G2 (24, 28, 21 and 26 semitones
/// below A4), the third lies 3 semitones above the root in A minor and 4
/// in the major chords, and the fifth 7. The pad holds root, third and
/// fifth, the bass plays the root, and the arpeggio runs over the same
/// chord tones.
pub proof fn lemma_music_chords(p: int)
    requires
        0 <= p < 176400,
    ensures
        ({
            let c = p / 44100;
            let i = p % 44100;
            let root = if c == 0 { -24int } else if c == 1 { -28int } else if c == 2 { -21int } else { -26int };
            let third = if c == 0 { 3int } else { 4int };
            music_raw(p) == pad_tone(root, i) + pad_tone(root + third, i) + pad_tone(root + 7, i)
                + bass_voice(root, i) + arp_part(root, third, i)
        }),
{
    reveal(music_raw);
    let c = p / 44100;
    let i = p % 44100;
    assert(0 <= c < 4);
    let root = CHORD_ROOTS@[c] as int;
    let minor = CHORD_MINOR@[c];
    let third = if minor { 3int } else { 4int };
    assert(root == (if c == 0 { -24int } else if c == 1 { -28int } else if c == 2 { -21int } else { -26int }));
    assert(minor == (c == 0));
    let k = i / 2756;
    if k < 16 {
        let m = k % 6;
        assert(0 <= m < 6);
        assert(ARP_ORDER@[m] == (if m == 0 { 0usize } else if m == 1 || m == 5 { 1usize } else if m == 2 || m == 4 { 2usize } else { 3usize }));
        assert(root + chord_tone(minor, ARP_ORDER@[m] as int) + 12 == arp_note(root, third, k));
    }
    assert(arp_voice(root, minor, i) == arp_part(root, third, i));
}

/// The click fix only fades the ends: the first and last samples become
/// silent, every sample keeps its sign and gets no louder, and samples at
/// least 88 (4 ms) from both ends are untouched.
pub proof fn lemma_click_fix_ends(s: Seq<i32>)
    requires
        no_min(s),
    ensures
        click_fix_spec(s).len() == s.len(),
        s.len() > 0 ==> click_fix_spec(s)[0] == 0 && click_fix_spec(s)[s.len() - 1] == 0,
        forall|p: int| 88 <= p && p + 88 < s.len() ==> #[trigger] click_fix_spec(s)[p] == s[p],
        forall|p: int| 0 <= p < s.len() ==> shrinks(s[p], #[trigger] click_fix_spec(s)[p]),
{
    assert forall|p: int| 88 <= p && p + 88 < s.len() implies #[trigger] click_fix_spec(s)[p] == s[p] by {
        let x = s[p] as int;
        let a = if x >= 0 { x } else { -x };
        assert(a * (88 * 88int) / (88 * 88int) == a) by (nonlinear_arith);
    }
    assert forall|p: int| 0 <= p < s.len() implies shrinks(s[p], #[trigger] click_fix_spec(s)[p]) by {
        let x = s[p] as int;
        let a = if x >= 0 { x } else { -x };
        let g = click_gain(p) * click_gain(s.len() - 1 - p);
        assert(0 <= g <= 88 * 88) by (nonlinear_arith)
            requires
                g == click_gain(p) * click_gain(s.len() - 1 - p),
                0 <= click_gain(p) <= 88,
                0 <= click_gain(s.len() - 1 - p) <= 88,
        ;
        lemma_scale_shrinks(a, g, 88 * 88int);
    }
    if s.len() > 0 {
        assert(click_gain(0) == 0);
        assert(click_fix_spec(s)[0] == 0);
        let l = s.len() - 1;
        assert(click_gain(s.len() - 1 - l) == 0);
        assert(click_gain(l) * click_gain(s.len() - 1 - l) == 0);
        let x = s[l] as int;
        if x >= 0 {
            assert(x * 0 / (88 * 88int) == 0) by (nonlinear_arith);
        } else {
            assert((-x) * 0 / (88 * 88int) == 0) by (nonlinear_arith);
        }
        assert(click_fix_spec(s)[l] == 0);
    }
}

/// A4 (0 semitones) is 440 Hz, and every semitone up is a higher note.
pub proof fn lemma_pitch_order(semi: int)
    requires
        LOWEST_NOTE <= semi,
    ensures
        note_freq_spec(0) == 440000000,
        note_freq_spec(semi) < note_freq_spec(semi + 1),
{
    lemma2_to64();
    assert(note_freq_spec(0) == SEMITONES@[0] * pow2(9));
    let s = semi - LOWEST_NOTE;
    let m = s % 12;
    let o = (s / 12) as nat;
    let p = pow2(o);
    lemma_pow2_pos(o);
    if m < 11 {
        assert((s + 1) % 12 == m + 1);
        assert((s + 1) / 12 == s / 12);
        assert(SEMITONES@[m] < SEMITONES@[m + 1]);
        assert(SEMITONES@[m] * p < SEMITONES@[m + 1] * p) by (nonlinear_arith)
            requires
                SEMITONES@[m] < SEMITONES@[m + 1],
                p > 0,
        ;
    } else {
        assert((s + 1) % 12 == 0);
        assert((s + 1) / 12 == s / 12 + 1);
        lemma_pow2_unfold((s / 12 + 1) as nat);
        assert(SEMITONES@[11] * p < SEMITONES@[0] * (2 * p)) by (nonlinear_arith)
            requires
                SEMITONES@[11] == 1622284,
                SEMITONES@[0] == 859375,
                p > 0,
        ;
    }
}
} // verus!
