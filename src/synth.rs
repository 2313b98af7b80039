use vstd::prelude::*;
use crate::parameter::BitCrushSweep;

verus! {

/// Number of samples each stage processes per step of the driver.
pub const BLOCK_SIZE: usize = 10240;

/// Length of the output buffer for a sample count rounded up from
/// `sample_rate * duration`: never less than one sample.
pub fn sample_count(rounded_up: usize) -> (r: usize)
    ensures
        r >= 1,
        r == if rounded_up == 0 { 1 } else { rounded_up },
{
    if rounded_up == 0 {
        1
    } else {
        rounded_up
    }
}

/// End of the block that starts at `start`.
pub open spec fn block_end(start: nat, num_samples: nat, block_size: nat) -> nat {
    if start + block_size <= num_samples {
        start + block_size
    } else {
        num_samples
    }
}

/// The blocks, as `(start, end)` index ranges, in which the driver walks the
/// buffer from `start` on.
pub open spec fn block_schedule(start: nat, num_samples: nat, block_size: nat) -> Seq<(nat, nat)>
    decreases num_samples - start,
    when block_size > 0
{
    if start >= num_samples {
        Seq::empty()
    } else {
        let end = block_end(start, num_samples, block_size);
        seq![(start, end)] + block_schedule(end, num_samples, block_size)
    }
}

/// A stage seen as a machine that takes one sample index at a time.
pub open spec fn run_samples<S>(step: spec_fn(S, nat) -> S, s: S, from: nat, to: nat) -> S
    decreases to - from,
{
    if from >= to {
        s
    } else {
        run_samples(step, step(s, from), from + 1, to)
    }
}

/// The same machine run block after block.
pub open spec fn run_blocks<S>(step: spec_fn(S, nat) -> S, s: S, blocks: Seq<(nat, nat)>) -> S
    decreases blocks.len(),
{
    if blocks.len() == 0 {
        s
    } else {
        run_blocks(step, run_samples(step, s, blocks[0].0, blocks[0].1), blocks.drop_first())
    }
}

proof fn lemma_run_samples_split<S>(step: spec_fn(S, nat) -> S, s: S, from: nat, mid: nat, to: nat)
    requires
        from <= mid <= to,
    ensures
        run_samples(step, s, from, to) == run_samples(step, run_samples(step, s, from, mid), mid, to),
    decreases mid - from,
{
    if from < mid {
        lemma_run_samples_split(step, step(s, from), from + 1, mid, to);
    }
}

proof fn lemma_schedule_runs_through<S>(
    step: spec_fn(S, nat) -> S,
    s: S,
    start: nat,
    num_samples: nat,
    block_size: nat,
)
    requires
        block_size > 0,
    ensures
        run_blocks(step, s, block_schedule(start, num_samples, block_size)) == run_samples(
            step,
            s,
            start,
            num_samples,
        ),
    decreases num_samples - start,
{
    if start < num_samples {
        let end = block_end(start, num_samples, block_size);
        let blocks = block_schedule(start, num_samples, block_size);
        assert(blocks.drop_first() =~= block_schedule(end, num_samples, block_size));
        lemma_schedule_runs_through(
            step,
            run_samples(step, s, start, end),
            end,
            num_samples,
            block_size,
        );
        lemma_run_samples_split(step, s, start, end, num_samples);
    }
}

/// Block invariance: a stage that carries its state from one sample to the
/// next ends in the same state (its buffer included) whatever the block size
/// the driver walks the buffer with, and the same as in one pass over the
/// whole buffer.
pub proof fn lemma_block_invariance<S>(
    step: spec_fn(S, nat) -> S,
    s: S,
    num_samples: nat,
    size_a: nat,
    size_b: nat,
)
    requires
        size_a > 0,
        size_b > 0,
    ensures
        run_blocks(step, s, block_schedule(0, num_samples, size_a)) == run_blocks(
            step,
            s,
            block_schedule(0, num_samples, size_b),
        ),
        run_blocks(step, s, block_schedule(0, num_samples, size_a)) == run_samples(
            step,
            s,
            0,
            num_samples,
        ),
{
    lemma_schedule_runs_through(step, s, 0, num_samples, size_a);
    lemma_schedule_runs_through(step, s, 0, num_samples, size_b);
}

/// The blocks cover the buffer from `start` on exactly once, in order: each
/// is non-empty and no longer than the block size, each begins where the one
/// before it ended, and only the last one reaches the end of the buffer.
pub proof fn lemma_schedule_tiles(start: nat, num_samples: nat, block_size: nat)
    requires
        block_size > 0,
        start <= num_samples,
    ensures
        ({
            let blocks = block_schedule(start, num_samples, block_size);
            &&& (start < num_samples <==> blocks.len() > 0)
            &&& blocks.len() > 0 ==> blocks[0].0 == start && blocks.last().1 == num_samples
            &&& forall|k: int|
                0 <= k < blocks.len() ==> #[trigger] blocks[k].0 < blocks[k].1 && blocks[k].1
                    <= blocks[k].0 + block_size
            &&& forall|k: int| 0 <= k < blocks.len() - 1 ==> #[trigger] blocks[k].1 == blocks[k + 1].0
            &&& forall|k: int| 0 <= k < blocks.len() - 1 ==> #[trigger] blocks[k].1 < num_samples
        }),
    decreases num_samples - start,
{
    if start < num_samples {
        let end = block_end(start, num_samples, block_size);
        let blocks = block_schedule(start, num_samples, block_size);
        let rest = block_schedule(end, num_samples, block_size);
        lemma_schedule_tiles(end, num_samples, block_size);
        assert(blocks =~= seq![(start, end)] + rest);
        assert forall|k: int| 0 <= k < blocks.len() implies #[trigger] blocks[k].0 < blocks[k].1
            && blocks[k].1 <= blocks[k].0 + block_size by {
            if k > 0 {
                assert(blocks[k] == rest[k - 1]);
            }
        }
        assert forall|k: int| 0 <= k < blocks.len() - 1 implies #[trigger] blocks[k].1 == blocks[k
            + 1].0 by {
            if k > 0 {
                assert(blocks[k] == rest[k - 1]);
            }
        }
        assert forall|k: int| 0 <= k < blocks.len() - 1 implies #[trigger] blocks[k].1
            < num_samples by {
            if k > 0 {
                assert(blocks[k] == rest[k - 1]);
            }
        }
    }
}

/// What a driver's cursor holds: the next sample to produce, the buffer
/// length and the block size.
pub struct CursorState {
    pub start: nat,
    pub num_samples: nat,
    pub block_size: nat,
}

/// The driver's position in the buffer, advanced one block at a time.
pub struct BlockCursor {
    start: usize,
    num_samples: usize,
    block_size: usize,
}

impl View for BlockCursor {
    type V = CursorState;

    closed spec fn view(&self) -> CursorState {
        CursorState {
            start: self.start as nat,
            num_samples: self.num_samples as nat,
            block_size: self.block_size as nat,
        }
    }
}

impl BlockCursor {
    #[verifier::type_invariant]
    spec fn well_formed(self) -> bool {
        self.block_size > 0 && self.start <= self.num_samples
    }

    /// A cursor at the start of a buffer of `num_samples` samples.
    pub fn new(num_samples: usize, block_size: usize) -> (r: Self)
        requires
            block_size > 0,
        ensures
            r@ == (CursorState { start: 0, num_samples: num_samples as nat, block_size: block_size as nat }),
    {
        Self { start: 0, num_samples, block_size }
    }

    /// Whether the whole buffer has been produced.
    pub fn is_done(&self) -> (r: bool)
        ensures
            r == (self@.start >= self@.num_samples),
    {
        self.start >= self.num_samples
    }

    /// Index of the next sample to produce.
    pub fn position(&self) -> (r: usize)
        ensures
            r == self@.start,
    {
        self.start
    }

    /// Length of the buffer.
    pub fn num_samples(&self) -> (r: usize)
        ensures
            r == self@.num_samples,
    {
        self.num_samples
    }

    /// The next block to produce, as a `(start, end)` range, after which the
    /// cursor stands at its end; `None` once the buffer is complete.
    pub fn next_block(&mut self) -> (r: Option<(usize, usize)>)
        ensures
            old(self)@.block_size > 0,
            old(self)@.start <= old(self)@.num_samples,
            final(self)@.num_samples == old(self)@.num_samples,
            final(self)@.block_size == old(self)@.block_size,
            old(self)@.start >= old(self)@.num_samples ==> r is None && final(self)@ == old(self)@,
            old(self)@.start < old(self)@.num_samples ==> ({
                let blocks = block_schedule(
                    old(self)@.start,
                    old(self)@.num_samples,
                    old(self)@.block_size,
                );
                &&& r == Some((old(self)@.start as usize, final(self)@.start as usize))
                &&& (old(self)@.start, final(self)@.start) == blocks[0]
                &&& block_schedule(final(self)@.start, final(self)@.num_samples, final(self)@.block_size)
                    == blocks.drop_first()
            }),
    {
        proof {
            use_type_invariant(&*self);
        }
        if self.start >= self.num_samples {
            return None;
        }
        let start = self.start;
        let end = if self.num_samples - start <= self.block_size {
            self.num_samples
        } else {
            start + self.block_size
        };
        self.start = end;
        proof {
            let blocks = block_schedule(start as nat, self.num_samples as nat, self.block_size as nat);
            assert(blocks.drop_first() =~= block_schedule(end as nat, self.num_samples as nat, self.block_size as nat));
        }
        Some((start, end))
    }
}

/// What a delay line holds: its samples and the slot written next.
pub struct DelayState<T> {
    pub buffer: Seq<T>,
    pub pos: nat,
}

/// A requested delay, clamped to what a line of `len` slots can hold.
pub open spec fn clamped_offset(offset: nat, len: nat) -> nat {
    if offset + 1 > len {
        (len - 1) as nat
    } else {
        offset
    }
}

/// The line after `sample` is written into its current slot.
pub open spec fn delay_written<T>(line: DelayState<T>, sample: T) -> DelayState<T> {
    DelayState {
        buffer: line.buffer.update(line.pos as int, sample),
        pos: if line.pos + 1 >= line.buffer.len() {
            0
        } else {
            line.pos + 1
        },
    }
}

/// The slot `off` places behind `pos` on a ring of `len` slots.
pub open spec fn slot_behind(pos: nat, off: nat, len: nat) -> int {
    if off <= pos {
        pos - off
    } else {
        pos + len - off
    }
}

/// The sample read back `offset` slots (clamped) behind the slot just
/// written, the written sample itself at offset 0.
pub open spec fn delay_tap<T>(line: DelayState<T>, sample: T, offset: nat) -> T {
    let len = line.buffer.len();
    line.buffer.update(line.pos as int, sample)[slot_behind(line.pos, clamped_offset(offset, len), len)]
}

/// Fixed-length circular delay line, the memory of the flanger stage.
pub struct DelayLine<T> {
    buffer: Vec<T>,
    pos: usize,
}

impl<T> View for DelayLine<T> {
    type V = DelayState<T>;

    closed spec fn view(&self) -> DelayState<T> {
        DelayState { buffer: self.buffer@, pos: self.pos as nat }
    }
}

impl<T> DelayLine<T> {
    /// The line has a slot, and the cursor stands on one.
    pub open spec fn well_formed(&self) -> bool {
        self@.buffer.len() > 0 && self@.pos < self@.buffer.len()
    }
}

impl<T: Copy> DelayLine<T> {
    /// A line of `length` slots, all holding `silence`, writing at slot 0.
    pub fn new(length: usize, silence: T) -> (r: Self)
        requires
            length > 0,
        ensures
            r.well_formed(),
            r@.buffer == Seq::new(length as nat, |_i: int| silence),
            r@.pos == 0,
    {
        let mut buffer: Vec<T> = Vec::new();
        let mut i: usize = 0;
        while i < length
            invariant
                i <= length,
                buffer@ == Seq::new(i as nat, |_i: int| silence),
            decreases length - i,
        {
            buffer.push(silence);
            i = i + 1;
            proof {
                assert(buffer@ =~= Seq::new(i as nat, |_i: int| silence));
            }
        }
        Self { buffer, pos: 0 }
    }

    /// Number of slots.
    pub fn len(&self) -> (r: usize)
        requires
            self.well_formed(),
        ensures
            r == self@.buffer.len(),
            r > 0,
    {
        self.buffer.len()
    }

    /// Slot written next.
    pub fn position(&self) -> (r: usize)
        requires
            self.well_formed(),
        ensures
            r == self@.pos,
            r < self@.buffer.len(),
    {
        self.pos
    }

    /// Writes `sample` into the current slot, returns the sample `offset`
    /// slots behind it (the offset clamped to the line's length less one),
    /// and moves on to the next slot, wrapping round.
    pub fn push_and_tap(&mut self, sample: T, offset: usize) -> (delayed: T)
        requires
            old(self).well_formed(),
        ensures
            final(self).well_formed(),
            final(self)@ == delay_written(old(self)@, sample),
            delayed == delay_tap(old(self)@, sample, offset as nat),
    {
        let len = self.buffer.len();
        let pos = self.pos;
        self.buffer.set(pos, sample);
        let off = if offset > len - 1 {
            len - 1
        } else {
            offset
        };
        let read = if off <= pos {
            pos - off
        } else {
            pos + (len - off)
        };
        let delayed = self.buffer[read];
        self.pos = if pos + 1 == len {
            0
        } else {
            pos + 1
        };
        delayed
    }
}

/// The flanger's delay line as a machine over sample indices: each index
/// feeds `input[i]` to the line with delay `offsets[i]`, as one call of
/// `DelayLine::push_and_tap` does, and records the sample tapped.
pub open spec fn delay_line_step<T>(input: Seq<T>, offsets: Seq<nat>) -> spec_fn(
    (DelayState<T>, Seq<T>),
    nat,
) -> (DelayState<T>, Seq<T>) {
    |s: (DelayState<T>, Seq<T>), i: nat|
        (
            delay_written(s.0, input[i as int]),
            s.1.push(delay_tap(s.0, input[i as int], offsets[i as int])),
        )
}

/// Block invariance of the delay line: fed a buffer block by block, it ends
/// in the same state and taps the same samples whatever the block size.
pub proof fn lemma_delay_line_block_invariance<T>(
    input: Seq<T>,
    offsets: Seq<nat>,
    line: DelayState<T>,
    size_a: nat,
    size_b: nat,
)
    requires
        size_a > 0,
        size_b > 0,
    ensures
        run_blocks(
            delay_line_step(input, offsets),
            (line, Seq::empty()),
            block_schedule(0, input.len(), size_a),
        ) == run_blocks(
            delay_line_step(input, offsets),
            (line, Seq::empty()),
            block_schedule(0, input.len(), size_b),
        ),
{
    lemma_block_invariance(delay_line_step(input, offsets), (line, Seq::empty()), input.len(), size_a, size_b);
}

/// Two to the power `n`.
pub open spec fn two_pow(n: nat) -> nat
    decreases n,
{
    if n == 0 {
        1
    } else {
        2 * two_pow((n - 1) as nat)
    }
}

/// Bit depth after clamping to the range the bit-crush stage supports.
pub open spec fn clamped_bits(bits: nat) -> nat {
    if bits < 1 {
        1
    } else if bits > 16 {
        16
    } else {
        bits
    }
}

/// Stage that applies the sound's envelope; it carries no state.
pub struct Envelope;

impl Envelope {
    pub fn new() -> Self {
        Self
    }
}

/// Stage that quantises samples to a (possibly sweeping) bit depth; it
/// carries no state.
pub struct BitCrush;

impl BitCrush {
    pub fn new() -> Self {
        Self
    }

    /// Whether the stage touches the buffer at all: it leaves it unchanged
    /// when both the depth and its sweep are zero.
    pub fn is_active(bit_crush: crate::parameter::BitCrush, sweep: BitCrushSweep) -> (r: bool)
        ensures
            r == !(bit_crush.0 == 0 && sweep.0 == 0),
    {
        !(bit_crush.0 == 0 && sweep.0 == 0)
    }

    /// Number of quantisation levels for a rounded bit depth: two to the
    /// power of the depth clamped to `1..=16`.
    pub fn quantization_steps(bits: usize) -> (r: u32)
        ensures
            r as nat == two_pow(clamped_bits(bits as nat)),
            2 <= r <= 65536,
    {
        let depth: usize = if bits < 1 {
            1
        } else if bits > 16 {
            16
        } else {
            bits
        };
        let mut steps: u32 = 1;
        let mut i: usize = 0;
        while i < depth
            invariant
                i <= depth <= 16,
                steps as nat == two_pow(i as nat),
            decreases depth - i,
        {
            proof {
                lemma_two_pow_bounds((i + 1) as nat);
            }
            steps = steps * 2;
            i = i + 1;
        }
        proof {
            lemma_two_pow_bounds(depth as nat);
        }
        steps
    }
}

proof fn lemma_two_pow_monotone(a: nat, b: nat)
    requires
        a <= b,
    ensures
        two_pow(a) <= two_pow(b),
        two_pow(b) >= 1,
    decreases b,
{
    if a < b {
        lemma_two_pow_monotone(a, (b - 1) as nat);
    } else if b > 0 {
        lemma_two_pow_monotone(0, (b - 1) as nat);
    }
}

proof fn lemma_two_pow_bounds(n: nat)
    requires
        1 <= n <= 16,
    ensures
        2 <= two_pow(n) <= 65536,
{
    lemma_two_pow_monotone(0, (n - 1) as nat);
    lemma_two_pow_monotone(n, 16);
    reveal_with_fuel(two_pow, 17);
}

/// Stage that raises each sample's magnitude to a power; it carries no
/// state.
pub struct Compress;

impl Compress {
    pub fn new() -> Self {
        Self
    }
}

/// Stage that scales the sound by a percentage; it carries no state.
pub struct Amplify;

impl Amplify {
    pub fn new() -> Self {
        Self
    }
}

} // verus!
