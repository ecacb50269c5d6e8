//! Clocked storage: a set-reset latch, a D flip-flop built on it, a one-bit
//! register built on the flip-flop, and a sixteen-bit register of those.
use vstd::prelude::*;

use crate::gates::{and, is_bit, is_word, mux, not, not_bit};

verus! {

/// Why a latch refused an update.
#[derive(Clone, Copy, Debug, PartialEq, Eq)]
pub enum LatchError {
    /// Set and reset were asserted together, which leaves the stored value
    /// undefined.
    IllegalState,
}

/// The value a latch holds after an update that it accepts: set stores 1,
/// reset stores 0, neither holds the old value.
pub open spec fn latch_next(q: u8, s: u8, r: u8) -> u8 {
    if s == 1 {
        1
    } else if r == 1 {
        0
    } else {
        q
    }
}

/// The value a flip-flop holds after an update: `d` when the clock is 1,
/// else the old value.
pub open spec fn flipflop_next(q: u8, d: u8, clk: u8) -> u8 {
    if clk == 1 {
        d
    } else {
        q
    }
}

/// The value a one-bit register holds after an update: `input` when both
/// load and clock are 1, else the old value.
pub open spec fn bit_next(q: u8, input: u8, load: u8, clk: u8) -> u8 {
    if load == 1 && clk == 1 {
        input
    } else {
        q
    }
}

/// The word a sixteen-bit register holds after an update: `input` when both
/// load and clock are 1, else the old word.
pub open spec fn register_next(w: Seq<u8>, input: Seq<u8>, load: u8, clk: u8) -> Seq<u8> {
    if load == 1 && clk == 1 {
        input
    } else {
        w
    }
}

/// The word a sixteen-bit register holds after one update for each of
/// `inputs`, in order, all with the same load and clock.
pub open spec fn register_run(w: Seq<u8>, inputs: Seq<Seq<u8>>, load: u8, clk: u8) -> Seq<u8>
    decreases inputs.len(),
{
    if inputs.len() == 0 {
        w
    } else {
        register_next(register_run(w, inputs.drop_last(), load, clk), inputs.last(), load, clk)
    }
}

/// Whatever a flip-flop held, a clock pulse with data 1 makes it 1, a
/// following update with the clock at 0 keeps it 1, and a following clock
/// pulse with data 0 makes it 0.
pub proof fn lemma_flipflop_capture_hold(q: u8)
    ensures
        flipflop_next(q, 1, 1) == 1,
        flipflop_next(flipflop_next(q, 1, 1), 0, 0) == 1,
        flipflop_next(flipflop_next(flipflop_next(q, 1, 1), 0, 0), 0, 1) == 0,
{
}

/// Updates with load at 0 never change a register's word, however many of
/// them are applied and whatever their inputs.
pub proof fn lemma_register_hold(w: Seq<u8>, inputs: Seq<Seq<u8>>, clk: u8)
    ensures
        register_run(w, inputs, 0, clk) == w,
    decreases inputs.len(),
{
    if inputs.len() > 0 {
        lemma_register_hold(w, inputs.drop_last(), clk);
    }
}

/// Loading `x` on a clock pulse and then updating with load at 0 leaves the
/// register holding `x`.
pub proof fn lemma_register_load_then_hold(w: Seq<u8>, x: Seq<u8>, y: Seq<u8>)
    ensures
        register_next(register_next(w, x, 1, 1), y, 0, 1) == x,
{
}

/// Set-reset latch: the bistable element that stores one signal.
#[derive(Clone, Copy)]
pub struct SRLatch {
    q: u8,
}

impl View for SRLatch {
    type V = u8;

    closed spec fn view(&self) -> u8 {
        self.q
    }
}

impl SRLatch {
    /// The stored value is a signal.
    pub open spec fn wf(&self) -> bool {
        is_bit(self@)
    }

    pub fn new() -> (r: SRLatch)
        ensures
            r.wf(),
            r@ == 0,
    {
        SRLatch { q: 0 }
    }

    /// Applies set `s` and reset `r`. Asserting both is refused and leaves
    /// the latch as it was.
    pub fn update(&mut self, s: u8, r: u8) -> (res: Result<(), LatchError>)
        requires
            old(self).wf(),
            is_bit(s),
            is_bit(r),
        ensures
            final(self).wf(),
            res == (if s == 1 && r == 1 {
                Err::<(), LatchError>(LatchError::IllegalState)
            } else {
                Ok::<(), LatchError>(())
            }),
            final(self)@ == (if s == 1 && r == 1 {
                old(self)@
            } else {
                latch_next(old(self)@, s, r)
            }),
    {
        if s == 1 && r == 1 {
            Err(LatchError::IllegalState)
        } else {
            if s == 1 {
                self.q = 1;
            } else if r == 1 {
                self.q = 0;
            }
            Ok(())
        }
    }

    pub fn get_q(&self) -> (r: u8)
        ensures
            r == self@,
    {
        self.q
    }
}

/// D flip-flop: captures its data input while the clock is 1, through a
/// latch whose set and reset are gated by the clock.
#[derive(Clone, Copy)]
pub struct DFlipFlop {
    q: u8,
    not_q: u8,
    sr_latch: SRLatch,
}

impl View for DFlipFlop {
    type V = u8;

    closed spec fn view(&self) -> u8 {
        self.q
    }
}

impl DFlipFlop {
    /// The output is a signal, its complement is kept beside it, and the
    /// latch holds the same value.
    pub closed spec fn wf(&self) -> bool {
        &&& is_bit(self.q)
        &&& self.not_q == not_bit(self.q)
        &&& self.sr_latch.wf()
        &&& self.sr_latch@ == self.q
    }

    pub fn new() -> (r: DFlipFlop)
        ensures
            r.wf(),
            r@ == 0,
    {
        DFlipFlop { q: 0, not_q: 1, sr_latch: SRLatch::new() }
    }

    /// Forces the stored value to `initial_state` without a clock; meant for
    /// initialisation and reset.
    pub fn set_initial_state(&mut self, initial_state: u8)
        requires
            old(self).wf(),
            is_bit(initial_state),
        ensures
            final(self).wf(),
            final(self)@ == initial_state,
    {
        self.q = initial_state;
        self.not_q = not(initial_state);
        self.sr_latch.q = initial_state;
    }

    /// Drives the latch with `s = d AND clk` and `r = NOT d AND clk`: with
    /// the clock at 1 the flip-flop takes `d`, with it at 0 it holds.
    pub fn d_flipflop(&mut self, d: u8, clk: u8)
        requires
            old(self).wf(),
            is_bit(d),
            is_bit(clk),
        ensures
            final(self).wf(),
            final(self)@ == flipflop_next(old(self)@, d, clk),
    {
        let s = and(d, clk);
        let r = and(not(d), clk);
        let outcome = self.sr_latch.update(s, r);
        assert(outcome is Ok);
        self.q = self.sr_latch.get_q();
        self.not_q = not(self.q);
    }

    pub fn output(&self) -> (r: u8)
        requires
            self.wf(),
        ensures
            r == self@,
            is_bit(r),
    {
        self.q
    }
}

/// One-bit register: a flip-flop whose data input is the new value when
/// load is 1 and its own output when load is 0, so that a clock pulse with
/// load at 0 stores what was already there.
#[derive(Clone, Copy)]
pub struct Bit {
    dff: DFlipFlop,
}

impl View for Bit {
    type V = u8;

    closed spec fn view(&self) -> u8 {
        self.dff@
    }
}

impl Bit {
    pub closed spec fn wf(&self) -> bool {
        self.dff.wf()
    }

    pub fn new() -> (r: Bit)
        ensures
            r.wf(),
            r@ == 0,
    {
        Bit { dff: DFlipFlop::new() }
    }

    /// Stores `input` when load and clock are both 1; holds otherwise.
    pub fn bit(&mut self, input: u8, load: u8, clk: u8)
        requires
            old(self).wf(),
            is_bit(input),
            is_bit(load),
            is_bit(clk),
        ensures
            final(self).wf(),
            final(self)@ == bit_next(old(self)@, input, load, clk),
    {
        let inp = mux(self.dff.output(), input, load);
        self.dff.d_flipflop(inp, clk);
    }

    pub fn output(&self) -> (r: u8)
        requires
            self.wf(),
        ensures
            r == self@,
            is_bit(r),
    {
        self.dff.output()
    }

    pub fn read(&self) -> (r: u8)
        requires
            self.wf(),
        ensures
            r == self@,
            is_bit(r),
    {
        self.dff.output()
    }

    /// Stores `value` directly, bypassing load and clock.
    pub fn write(&mut self, value: u8)
        requires
            old(self).wf(),
            is_bit(value),
        ensures
            final(self).wf(),
            final(self)@ == value,
    {
        self.dff.set_initial_state(value);
    }
}

/// Sixteen-bit register: one `Bit` per position of a word.
pub struct Register {
    bits: [Bit; 16],
}

impl View for Register {
    type V = Seq<u8>;

    closed spec fn view(&self) -> Seq<u8> {
        Seq::new(16, |i: int| self.bits@[i]@)
    }
}

impl Register {
    pub closed spec fn wf(&self) -> bool {
        forall|i: int| 0 <= i < 16 ==> (#[trigger] self.bits@[i]).wf()
    }

    pub fn new() -> (r: Register)
        ensures
            r.wf(),
            r@ == Seq::new(16, |i: int| 0u8),
    {
        let b = Bit::new();
        let r = Register { bits: [b, b, b, b, b, b, b, b, b, b, b, b, b, b, b, b] };
        assert(r@ =~= Seq::new(16, |i: int| 0u8));
        r
    }

    /// Stores the word `input` when load and clock are both 1; holds
    /// otherwise. Every position is updated alike.
    pub fn register(&mut self, input: [u8; 16], load: u8, clk: u8)
        requires
            old(self).wf(),
            is_word(input@),
            is_bit(load),
            is_bit(clk),
        ensures
            final(self).wf(),
            final(self)@ == register_next(old(self)@, input@, load, clk),
    {
        let ghost start = self@;
        let mut i: usize = 0;
        while i < 16
            invariant
                i <= 16,
                is_word(input@),
                is_bit(load),
                is_bit(clk),
                self.wf(),
                start.len() == 16,
                forall|j: int|
                    0 <= j < i ==> self@[j] == bit_next(start[j], input@[j], load, clk),
                forall|j: int| i <= j < 16 ==> self@[j] == start[j],
            decreases 16 - i,
        {
            let ghost before = self@;
            let inp = mux(self.bits[i].output(), input[i], load);
            let mut b = self.bits[i];
            assert(b@ == start[i as int]);
            b.bit(inp, load, clk);
            self.bits[i] = b;
            assert(self@[i as int] == bit_next(start[i as int], input@[i as int], load, clk));
            assert(forall|j: int| 0 <= j < 16 && j != i ==> self@[j] == before[j]);
            assert forall|j: int| 0 <= j <= i implies self@[j] == bit_next(
                start[j],
                input@[j],
                load,
                clk,
            ) by {
                if j < i {
                    assert(before[j] == bit_next(start[j], input@[j], load, clk));
                }
            }
            i += 1;
        }
        assert(self@ =~= register_next(start, input@, load, clk));
    }

    pub fn output(&self) -> (r: [u8; 16])
        requires
            self.wf(),
        ensures
            r@ == self@,
            is_word(r@),
    {
        let mut res: [u8; 16] = [0u8; 16];
        let mut i: usize = 0;
        while i < 16
            invariant
                i <= 16,
                self.wf(),
                res@.len() == 16,
                forall|j: int| 0 <= j < i ==> res@[j] == self@[j],
                forall|j: int| 0 <= j < i ==> is_bit(#[trigger] res@[j]),
            decreases 16 - i,
        {
            res[i] = self.bits[i].output();
            i += 1;
        }
        assert(res@ =~= self@);
        res
    }

    pub fn read(&self, index: usize) -> (r: u8)
        requires
            self.wf(),
            index < 16,
        ensures
            r == self@[index as int],
            is_bit(r),
    {
        self.bits[index].read()
    }

    /// Stores `value` at position `index` directly, bypassing load and clock.
    pub fn write(&mut self, index: usize, value: u8)
        requires
            old(self).wf(),
            index < 16,
            is_bit(value),
        ensures
            final(self).wf(),
            final(self)@ == old(self)@.update(index as int, value),
    {
        let mut b = self.bits[index];
        b.write(value);
        self.bits[index] = b;
        assert(self@ =~= old(self)@.update(index as int, value));
    }
}

} // verus!
