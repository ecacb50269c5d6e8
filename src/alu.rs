//! Adders built from gates, and the ALU built from adders and gates.
use vstd::prelude::*;

use crate::gates::{
    all_bits, and, and_16, and_bit, and_word, is_bit, is_word, not_16, not_word, or, xor,
    xor_bit,
};

verus! {

/// The weight of position `i` in a word: two to the power `i`.
pub open spec fn place_value(i: nat) -> nat
    decreases i,
{
    if i == 0 {
        1
    } else {
        2 * place_value((i - 1) as nat)
    }
}

/// The number that a sequence of signals denotes, index 0 the least
/// significant.
pub open spec fn word_value(w: Seq<u8>) -> nat
    decreases w.len(),
{
    if w.len() == 0 {
        0
    } else {
        w[0] as nat + 2 * word_value(w.drop_first())
    }
}

/// The `len` lowest binary digits of `n`, least significant first.
pub open spec fn word_of(n: nat, len: nat) -> Seq<u8>
    decreases len,
{
    if len == 0 {
        Seq::empty()
    } else {
        seq![(n % 2) as u8] + word_of(n / 2, (len - 1) as nat)
    }
}

/// The sum of two words modulo two to the sixteenth.
pub open spec fn add_word(a: Seq<u8>, b: Seq<u8>) -> Seq<u8> {
    word_of((word_value(a) + word_value(b)) % 65536, 16)
}

/// The word whose signals are all 0.
pub open spec fn zero_word() -> Seq<u8> {
    Seq::new(16, |i: int| 0u8)
}

/// An ALU operand after its two control signals: `z` forces it to zero,
/// then `n` complements it.
pub open spec fn preset(w: Seq<u8>, z: u8, n: u8) -> Seq<u8> {
    let zw = if z == 1 {
        zero_word()
    } else {
        w
    };
    if n == 1 {
        not_word(zw)
    } else {
        zw
    }
}

/// The word that the ALU outputs for the given operands and controls.
pub open spec fn alu_word(
    x: Seq<u8>,
    y: Seq<u8>,
    zx: u8,
    nx: u8,
    zy: u8,
    ny: u8,
    f: u8,
    no: u8,
) -> Seq<u8> {
    let xp = preset(x, zx, nx);
    let yp = preset(y, zy, ny);
    let combined = if f == 0 {
        and_word(xp, yp)
    } else {
        add_word(xp, yp)
    };
    if no == 1 {
        not_word(combined)
    } else {
        combined
    }
}

proof fn lemma_place_value_16()
    ensures
        place_value(16) == 65536,
{
    reveal_with_fuel(place_value, 17);
}

/// A sequence of signals denotes a number below two to its length.
proof fn lemma_word_value_bound(w: Seq<u8>)
    requires
        all_bits(w),
    ensures
        word_value(w) < place_value(w.len()),
    decreases w.len(),
{
    if w.len() > 0 {
        lemma_word_value_bound(w.drop_first());
    }
}

/// The binary digits of the number that a sequence of signals denotes are
/// that sequence.
proof fn lemma_word_of_value(w: Seq<u8>)
    requires
        all_bits(w),
    ensures
        word_of(word_value(w), w.len()) == w,
    decreases w.len(),
{
    if w.len() > 0 {
        let t = w.drop_first();
        lemma_word_of_value(t);
        let v = word_value(w);
        assert(v % 2 == w[0] as nat && v / 2 == word_value(t)) by {
            assert(v == w[0] as nat + 2 * word_value(t));
        }
        assert(word_of(v, w.len()) =~= w);
    }
}

/// Extending a prefix by one position adds that position's weight when its
/// signal is 1.
proof fn lemma_word_value_prefix(w: Seq<u8>, i: int)
    requires
        all_bits(w),
        0 <= i < w.len(),
    ensures
        word_value(w.subrange(0, i + 1)) == word_value(w.subrange(0, i)) + (if w[i] == 1 {
            place_value(i as nat)
        } else {
            0
        }),
    decreases i,
{
    let s1 = w.subrange(0, i + 1);
    let s0 = w.subrange(0, i);
    if i == 0 {
        assert(s1.drop_first() =~= Seq::<u8>::empty());
        assert(word_value(s1.drop_first()) == 0);
        assert(word_value(s0) == 0);
        assert(place_value(0) == 1);
    } else {
        let t = w.drop_first();
        lemma_word_value_prefix(t, i - 1);
        assert(s1.drop_first() =~= t.subrange(0, i));
        assert(s0.drop_first() =~= t.subrange(0, i - 1));
        assert(t[i - 1] == w[i]);
        assert(s1[0] == w[0] && s0[0] == w[0]);
        assert(place_value(i as nat) == 2 * place_value((i - 1) as nat));
    }
}

/// A word of all zeros denotes 0.
proof fn lemma_zero_value(w: Seq<u8>)
    requires
        forall|i: int| 0 <= i < w.len() ==> w[i] == 0,
    ensures
        word_value(w) == 0,
    decreases w.len(),
{
    if w.len() > 0 {
        lemma_zero_value(w.drop_first());
    }
}

/// Adds two signals: `sum` is their XOR and `carry` their AND.
pub fn half_adder(a: u8, b: u8) -> (r: (u8, u8))
    requires
        is_bit(a),
        is_bit(b),
    ensures
        r.0 == xor_bit(a, b),
        r.1 == and_bit(a, b),
        r.0 + 2 * r.1 == a + b,
{
    let sum: u8 = xor(a, b);
    let carry_out: u8 = and(a, b);
    (sum, carry_out)
}

/// Adds three signals through two half adders; the carry out is the OR of
/// their carries.
pub fn full_adder(a: u8, b: u8, cin: u8) -> (r: (u8, u8))
    requires
        is_bit(a),
        is_bit(b),
        is_bit(cin),
    ensures
        is_bit(r.0),
        is_bit(r.1),
        r.0 + 2 * r.1 == a + b + cin,
{
    let (sum1, carry1) = half_adder(a, b);
    let (sum, carry2) = half_adder(sum1, cin);
    let carry_out: u8 = or(carry1, carry2);
    (sum, carry_out)
}

/// Adds two words by ripple carry from position 0; a carry out of position
/// 15 is dropped, so the sum wraps modulo two to the sixteenth.
pub fn add_16(a: [u8; 16], b: [u8; 16]) -> (r: [u8; 16])
    requires
        is_word(a@),
        is_word(b@),
    ensures
        r@ == add_word(a@, b@),
        is_word(r@),
        word_value(r@) == (word_value(a@) + word_value(b@)) % 65536,
{
    let mut res: [u8; 16] = [0u8; 16];
    let (sum, carry_out) = half_adder(a[0], b[0]);
    res[0] = sum;
    let mut carry: u8 = carry_out;
    proof {
        lemma_word_value_prefix(a@, 0);
        lemma_word_value_prefix(b@, 0);
        lemma_word_value_prefix(res@, 0);
        assert(place_value(1) == 2 * place_value(0));
    }
    let mut i: usize = 1;
    while i < 16
        invariant
            1 <= i <= 16,
            is_word(a@),
            is_word(b@),
            is_bit(carry),
            res@.len() == 16,
            all_bits(res@),
            word_value(res@.subrange(0, i as int)) + (if carry == 1 {
                place_value(i as nat)
            } else {
                0
            }) == word_value(a@.subrange(0, i as int)) + word_value(b@.subrange(0, i as int)),
        decreases 16 - i,
    {
        let ghost before = res@;
        let (sum, carry_out) = full_adder(a[i], b[i], carry);
        res[i] = sum;
        carry = carry_out;
        proof {
            assert(res@.subrange(0, i as int) =~= before.subrange(0, i as int));
            lemma_word_value_prefix(a@, i as int);
            lemma_word_value_prefix(b@, i as int);
            lemma_word_value_prefix(res@, i as int);
            assert(place_value((i + 1) as nat) == 2 * place_value(i as nat));
        }
        i += 1;
    }
    proof {
        assert(res@.subrange(0, 16) =~= res@);
        assert(a@.subrange(0, 16) =~= a@);
        assert(b@.subrange(0, 16) =~= b@);
        lemma_place_value_16();
        lemma_word_value_bound(res@);
        lemma_word_of_value(res@);
    }
    res
}

/// Adds one to a word, wrapping the largest word to zero.
pub fn inc_16(a: [u8; 16]) -> (r: [u8; 16])
    requires
        is_word(a@),
    ensures
        r@ == word_of((word_value(a@) + 1) % 65536, 16),
        is_word(r@),
        word_value(r@) == (word_value(a@) + 1) % 65536,
{
    let mut b: [u8; 16] = [0u8; 16];
    b[0] = 1;
    proof {
        lemma_zero_value(b@.drop_first());
    }
    add_16(a, b)
}

/// The ALU. `zx`/`zy` force an operand to zero and `nx`/`ny` then complement
/// it; `f` selects bitwise AND (0) or addition (1) of the two operands; `no`
/// complements the result. Returns the output word, the zero flag (1 exactly
/// when every signal of the output is 0) and the negative flag (the output's
/// signal at position 15).
pub fn alu(x: [u8; 16], y: [u8; 16], zx: u8, nx: u8, zy: u8, ny: u8, f: u8, no: u8) -> (r: (
    [u8; 16],
    u8,
    u8,
))
    requires
        is_word(x@),
        is_word(y@),
        is_bit(zx),
        is_bit(nx),
        is_bit(zy),
        is_bit(ny),
        is_bit(f),
        is_bit(no),
    ensures
        r.0@ == alu_word(x@, y@, zx, nx, zy, ny, f, no),
        is_word(r.0@),
        r.1 == (if r.0@ == zero_word() { 1u8 } else { 0u8 }),
        r.2 == r.0@[15],
{
    let zero: [u8; 16] = [0u8; 16];
    assert(zero@ =~= zero_word());
    let x_processed: [u8; 16] = if zx == 0 && nx == 0 {
        x
    } else if zx == 1 && nx == 1 {
        not_16(zero)
    } else if zx == 1 {
        zero
    } else {
        not_16(x)
    };
    let y_processed: [u8; 16] = if zy == 0 && ny == 0 {
        y
    } else if zy == 1 && ny == 1 {
        not_16(zero)
    } else if zy == 1 {
        zero
    } else {
        not_16(y)
    };
    assert(x_processed@ == preset(x@, zx, nx));
    assert(y_processed@ == preset(y@, zy, ny));
    let result: [u8; 16] = if f == 0 {
        and_16(x_processed, y_processed)
    } else {
        add_16(x_processed, y_processed)
    };
    let out: [u8; 16] = if no == 1 {
        not_16(result)
    } else {
        result
    };
    let mut zr: u8 = 1;
    let mut i: usize = 0;
    while i < 16
        invariant
            i <= 16,
            out@.len() == 16,
            zr == 0 || zr == 1,
            zr == 1 <==> forall|j: int| 0 <= j < i ==> out@[j] == 0,
        decreases 16 - i,
    {
        if out[i] != 0 {
            zr = 0;
        }
        i += 1;
    }
    if zr == 1 {
        assert(out@ =~= zero_word());
    }
    let ng: u8 = if out[15] == 1 {
        1
    } else {
        0
    };
    (out, zr, ng)
}

/// With zx=1, nx=0, zy=1, ny=0, f=1, no=0 the ALU outputs the zero word
/// whatever its operands, so its zero flag is 1 and its negative flag 0.
pub proof fn lemma_alu_constant_zero(x: Seq<u8>, y: Seq<u8>)
    ensures
        alu_word(x, y, 1, 0, 1, 0, 1, 0) == zero_word(),
        zero_word()[15] == 0,
{
    lemma_zero_value(zero_word());
    lemma_word_of_value(zero_word());
}

/// With every control at 0 but f=1 the ALU outputs the sum of its operands;
/// with every control at 0 it outputs their bitwise AND.
pub proof fn lemma_alu_add_and(x: Seq<u8>, y: Seq<u8>)
    requires
        is_word(x),
        is_word(y),
    ensures
        alu_word(x, y, 0, 0, 0, 0, 1, 0) == add_word(x, y),
        alu_word(x, y, 0, 0, 0, 0, 0, 0) == and_word(x, y),
{
}

} // verus!
