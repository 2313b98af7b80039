use vstd::prelude::*;

verus! {

/// The four words of xorshift state, as plain values.
pub struct RandomState {
    pub x: u32,
    pub y: u32,
    pub z: u32,
    pub w: u32,
}

/// The xorshift state before warm-up for a given seed.
pub open spec fn initial_state(seed: u32) -> RandomState {
    RandomState { x: seed, y: 362436069, z: 521288629, w: 88675123 }
}

/// One step of the xorshift recurrence.
pub open spec fn xorshift_step(s: RandomState) -> RandomState {
    let t = s.x ^ (s.x << 11u32);
    RandomState { x: s.y, y: s.z, z: s.w, w: s.w ^ (s.w >> 19u32) ^ (t ^ (t >> 8u32)) }
}

/// The value handed out for a state just reached: its last word offset by
/// half the range, wrapping.
pub open spec fn draw_of(s: RandomState) -> u32 {
    ((s.w as int + 0x8000_0000) % 0x1_0000_0000) as u32
}

/// The state after `n` steps.
pub open spec fn steps(s: RandomState, n: nat) -> RandomState
    decreases n,
{
    if n == 0 {
        s
    } else {
        xorshift_step(steps(s, (n - 1) as nat))
    }
}

/// Number of draws discarded when a generator is seeded.
pub const WARM_UP_DRAWS: u32 = 32;

/// The state of a generator freshly built from `seed`.
pub open spec fn seeded_state(seed: u32) -> RandomState {
    steps(initial_state(seed), WARM_UP_DRAWS as nat)
}

/// The first `n` values drawn from state `s`.
pub open spec fn draws(s: RandomState, n: nat) -> Seq<u32>
    decreases n,
{
    if n == 0 {
        Seq::empty()
    } else {
        seq![draw_of(xorshift_step(s))] + draws(xorshift_step(s), (n - 1) as nat)
    }
}

proof fn lemma_step_injective(a: RandomState, b: RandomState)
    requires
        xorshift_step(a) == xorshift_step(b),
    ensures
        a == b,
{
    let ta = a.x ^ (a.x << 11u32);
    let tb = b.x ^ (b.x << 11u32);
    let c = a.w ^ (a.w >> 19u32);
    assert(c ^ (ta ^ (ta >> 8u32)) == c ^ (tb ^ (tb >> 8u32)));
    assert(ta == tb) by (bit_vector)
        requires
            c ^ (ta ^ (ta >> 8u32)) == c ^ (tb ^ (tb >> 8u32)),
    ;
    let (xa, xb) = (a.x, b.x);
    assert(xa == xb) by (bit_vector)
        requires
            xa ^ (xa << 11u32) == xb ^ (xb << 11u32),
    ;
}

proof fn lemma_steps_injective(a: RandomState, b: RandomState, n: nat)
    requires
        steps(a, n) == steps(b, n),
    ensures
        a == b,
    decreases n,
{
    if n > 0 {
        lemma_step_injective(steps(a, (n - 1) as nat), steps(b, (n - 1) as nat));
        lemma_steps_injective(a, b, (n - 1) as nat);
    }
}

proof fn lemma_steps_after_step(s: RandomState, k: nat)
    ensures
        steps(xorshift_step(s), k) == steps(s, k + 1),
    decreases k,
{
    if k > 0 {
        lemma_steps_after_step(s, (k - 1) as nat);
        assert(steps(s, k + 1) == xorshift_step(steps(s, k)));
    } else {
        assert(steps(s, 1) == xorshift_step(steps(s, 0)));
    }
}

proof fn lemma_draw_at(s: RandomState, n: nat, k: nat)
    requires
        k < n,
    ensures
        draws(s, n).len() == n,
        draws(s, n)[k as int] == draw_of(steps(s, k + 1)),
    decreases n,
{
    lemma_draws_len(s, n);
    if k > 0 {
        lemma_draw_at(xorshift_step(s), (n - 1) as nat, (k - 1) as nat);
        lemma_steps_after_step(s, k);
    } else {
        assert(steps(s, 1) == xorshift_step(steps(s, 0)));
    }
}

proof fn lemma_draws_len(s: RandomState, n: nat)
    ensures
        draws(s, n).len() == n,
    decreases n,
{
    if n > 0 {
        lemma_draws_len(xorshift_step(s), (n - 1) as nat);
    }
}

/// Four consecutive draws fix the state they started from: the state four
/// steps on is made of exactly the words that were drawn.
proof fn lemma_four_draws_fix_state(a: RandomState, b: RandomState)
    requires
        draws(a, 4)[0] == draws(b, 4)[0],
        draws(a, 4)[1] == draws(b, 4)[1],
        draws(a, 4)[2] == draws(b, 4)[2],
        draws(a, 4)[3] == draws(b, 4)[3],
    ensures
        a == b,
{
    lemma_draw_at(a, 4, 0);
    lemma_draw_at(b, 4, 0);
    lemma_draw_at(a, 4, 1);
    lemma_draw_at(b, 4, 1);
    lemma_draw_at(a, 4, 2);
    lemma_draw_at(b, 4, 2);
    lemma_draw_at(a, 4, 3);
    lemma_draw_at(b, 4, 3);
    assert(steps(a, 1).w == steps(b, 1).w);
    assert(steps(a, 2).w == steps(b, 2).w);
    assert(steps(a, 3).w == steps(b, 3).w);
    assert(steps(a, 4).w == steps(b, 4).w);
    assert(steps(a, 4) == steps(b, 4));
    lemma_steps_injective(a, b, 4);
}

/// Generators seeded alike hand out the same values, and generators seeded
/// differently part within their first four draws: for any `n >= 4` the
/// first `n` draws agree exactly when the seeds do.
pub proof fn lemma_draws_determined_by_seed(s1: u32, s2: u32, n: nat)
    requires
        n >= 4,
    ensures
        draws(seeded_state(s1), n) == draws(seeded_state(s2), n) <==> s1 == s2,
{
    let a = seeded_state(s1);
    let b = seeded_state(s2);
    if draws(a, n) == draws(b, n) {
        assert forall|k: nat| k < 4 implies draws(a, 4)[k as int] == draws(b, 4)[k as int] by {
            lemma_draw_at(a, n, k);
            lemma_draw_at(b, n, k);
            lemma_draw_at(a, 4, k);
            lemma_draw_at(b, 4, k);
        }
        assert(draws(a, 4)[0] == draws(b, 4)[0]);
        assert(draws(a, 4)[1] == draws(b, 4)[1]);
        assert(draws(a, 4)[2] == draws(b, 4)[2]);
        assert(draws(a, 4)[3] == draws(b, 4)[3]);
        lemma_four_draws_fix_state(a, b);
        lemma_steps_injective(initial_state(s1), initial_state(s2), WARM_UP_DRAWS as nat);
    }
}

/// Deterministic 32-bit xorshift generator.
pub struct Random {
    x: u32,
    y: u32,
    z: u32,
    w: u32,
}

impl View for Random {
    type V = RandomState;

    closed spec fn view(&self) -> RandomState {
        RandomState { x: self.x, y: self.y, z: self.z, w: self.w }
    }
}

impl Random {
    /// Seeds a generator and discards its first draws.
    pub fn new(seed: u32) -> (r: Self)
        ensures
            r@ == seeded_state(seed),
    {
        let mut ret = Self { x: seed, y: 362436069, z: 521288629, w: 88675123 };
        let mut i: u32 = 0;
        while i < WARM_UP_DRAWS
            invariant
                i <= WARM_UP_DRAWS,
                ret@ == steps(initial_state(seed), i as nat),
            decreases WARM_UP_DRAWS - i,
        {
            ret.uint32();
            i = i + 1;
        }
        ret
    }

    /// Advances the state by one step and returns the new draw.
    pub fn uint32(&mut self) -> (r: u32)
        ensures
            final(self)@ == xorshift_step(old(self)@),
            r == draw_of(final(self)@),
    {
        let t = self.x ^ (self.x << 11u32);
        self.x = self.y;
        self.y = self.z;
        self.z = self.w;
        self.w = self.w ^ (self.w >> 19u32) ^ (t ^ (t >> 8u32));
        self.w.wrapping_add(0x8000_0000u32)
    }
}

/// Seed of the generator of every noise oscillator, whatever its harmonic
/// index: added harmonics of a noise waveform replay the same stream.
pub const NOISE_SEED: u32 = 0x3cf78ba3;

/// Oscillator of a pure sine wave.
pub struct SineOscillator;

impl SineOscillator {
    pub fn new() -> Self {
        Self
    }
}

/// Oscillator of a symmetric triangle wave.
pub struct TriangleOscillator;

impl TriangleOscillator {
    pub fn new() -> Self {
        Self
    }
}

/// Oscillator of a rising sawtooth wave.
pub struct SawtoothOscillator;

impl SawtoothOscillator {
    pub fn new() -> Self {
        Self
    }
}

/// Oscillator of a square wave whose duty cycle follows the sound.
pub struct SquareOscillator;

impl SquareOscillator {
    pub fn new() -> Self {
        Self
    }
}

/// Oscillator of a clipped tangent wave.
pub struct TangentOscillator;

impl TangentOscillator {
    pub fn new() -> Self {
        Self
    }
}

/// Oscillator of a sine with a faint twentieth harmonic.
pub struct WhistleOscillator;

impl WhistleOscillator {
    pub fn new() -> Self {
        Self
    }
}

/// Oscillator of a wave made of parabolic segments.
pub struct BreakerOscillator;

impl BreakerOscillator {
    pub fn new() -> Self {
        Self
    }
}

} // verus!
