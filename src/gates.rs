//! Boolean gates composed from NAND, with 16-wide and N-way variants.
use vstd::prelude::*;

verus! {

/// A signal carries exactly one of the two values 0 and 1.
pub open spec fn is_bit(a: u8) -> bool {
    a <= 1
}

/// Logical AND of two signals.
pub open spec fn and_bit(a: u8, b: u8) -> u8 {
    if a == 1 && b == 1 {
        1
    } else {
        0
    }
}

/// Logical OR of two signals.
pub open spec fn or_bit(a: u8, b: u8) -> u8 {
    if a == 1 || b == 1 {
        1
    } else {
        0
    }
}

/// Logical complement of a signal.
pub open spec fn not_bit(a: u8) -> u8 {
    (1 - a) as u8
}

/// Exclusive OR of two signals.
pub open spec fn xor_bit(a: u8, b: u8) -> u8 {
    if a != b {
        1
    } else {
        0
    }
}

/// NAND, the primitive gate: 0 exactly when both inputs are 1.
pub fn nand(a: u8, b: u8) -> (r: u8)
    requires
        is_bit(a),
        is_bit(b),
    ensures
        r == 1 - and_bit(a, b),
{
    assert((!(a & b)) & 1 == (if a == 1 && b == 1 { 0u8 } else { 1u8 })) by (bit_vector)
        requires
            a <= 1,
            b <= 1,
    ;
    (!(a & b)) & 1
}

pub fn not(a: u8) -> (r: u8)
    requires
        is_bit(a),
    ensures
        r == not_bit(a),
{
    nand(a, a)
}

pub fn and(a: u8, b: u8) -> (r: u8)
    requires
        is_bit(a),
        is_bit(b),
    ensures
        r == and_bit(a, b),
{
    not(nand(a, b))
}

pub fn or(a: u8, b: u8) -> (r: u8)
    requires
        is_bit(a),
        is_bit(b),
    ensures
        r == or_bit(a, b),
{
    nand(not(a), not(b))
}

pub fn xor(a: u8, b: u8) -> (r: u8)
    requires
        is_bit(a),
        is_bit(b),
    ensures
        r == xor_bit(a, b),
{
    or(and(a, not(b)), and(not(a), b))
}

/// Selects `a` when `sel` is 0 and `b` when `sel` is 1.
pub fn mux(a: u8, b: u8, sel: u8) -> (r: u8)
    requires
        is_bit(a),
        is_bit(b),
        is_bit(sel),
    ensures
        r == (if sel == 0 { a } else { b }),
{
    or(and(not(sel), a), and(sel, b))
}

/// Routes `inp` to the first output when `sel` is 0 and to the second when
/// `sel` is 1; the other output is 0.
pub fn d_mux(inp: u8, sel: u8) -> (r: (u8, u8))
    requires
        is_bit(inp),
        is_bit(sel),
    ensures
        r == (if sel == 0 { (inp, 0u8) } else { (0u8, inp) }),
{
    (and(not(sel), inp), and(sel, inp))
}

/// Every element of `w` is a signal value.
pub open spec fn all_bits(w: Seq<u8>) -> bool {
    forall|i: int| 0 <= i < w.len() ==> is_bit(#[trigger] w[i])
}

/// A word: sixteen signals, index 0 the least significant.
pub open spec fn is_word(w: Seq<u8>) -> bool {
    w.len() == 16 && all_bits(w)
}

/// Bitwise complement of a word.
pub open spec fn not_word(a: Seq<u8>) -> Seq<u8> {
    Seq::new(16, |i: int| not_bit(a[i]))
}

/// Bitwise AND of two words.
pub open spec fn and_word(a: Seq<u8>, b: Seq<u8>) -> Seq<u8> {
    Seq::new(16, |i: int| and_bit(a[i], b[i]))
}

/// Bitwise OR of two words.
pub open spec fn or_word(a: Seq<u8>, b: Seq<u8>) -> Seq<u8> {
    Seq::new(16, |i: int| or_bit(a[i], b[i]))
}

/// The word that `sel` picks: `a` for 0, `b` for 1.
pub open spec fn mux_word(a: Seq<u8>, b: Seq<u8>, sel: u8) -> Seq<u8> {
    if sel == 0 {
        a
    } else {
        b
    }
}

/// The position that a two-signal selector names; `s0` is the low bit.
pub open spec fn sel_index2(s0: u8, s1: u8) -> int {
    s0 + 2 * s1
}

/// The position that a three-signal selector names; `s0` is the low bit.
pub open spec fn sel_index3(s0: u8, s1: u8, s2: u8) -> int {
    s0 + 2 * s1 + 4 * s2
}

/// The one of four words at the position that the selector names.
pub open spec fn mux4_word(
    a: Seq<u8>,
    b: Seq<u8>,
    c: Seq<u8>,
    d: Seq<u8>,
    s0: u8,
    s1: u8,
) -> Seq<u8> {
    seq![a, b, c, d][sel_index2(s0, s1)]
}

/// The one of eight words at the position that the selector names.
pub open spec fn mux8_word(ws: Seq<Seq<u8>>, s0: u8, s1: u8, s2: u8) -> Seq<u8> {
    ws[sel_index3(s0, s1, s2)]
}

/// `n` outputs, all 0 but the one at position `k`, which carries `inp`.
pub open spec fn route(inp: u8, n: int, k: int) -> Seq<u8> {
    Seq::new(n as nat, |j: int| if j == k { inp } else { 0u8 })
}

pub fn not_16(inp: [u8; 16]) -> (r: [u8; 16])
    requires
        is_word(inp@),
    ensures
        r@ == not_word(inp@),
        is_word(r@),
{
    let mut res: [u8; 16] = [0u8; 16];
    let mut i: usize = 0;
    while i < 16
        invariant
            i <= 16,
            is_word(inp@),
            res@.len() == 16,
            forall|j: int| 0 <= j < i ==> res@[j] == not_bit(inp@[j]),
        decreases 16 - i,
    {
        res[i] = not(inp[i]);
        i += 1;
    }
    assert(res@ =~= not_word(inp@));
    res
}

pub fn and_16(a: [u8; 16], b: [u8; 16]) -> (r: [u8; 16])
    requires
        is_word(a@),
        is_word(b@),
    ensures
        r@ == and_word(a@, b@),
        is_word(r@),
{
    let mut res: [u8; 16] = [0u8; 16];
    let mut i: usize = 0;
    while i < 16
        invariant
            i <= 16,
            is_word(a@),
            is_word(b@),
            res@.len() == 16,
            forall|j: int| 0 <= j < i ==> res@[j] == and_bit(a@[j], b@[j]),
        decreases 16 - i,
    {
        res[i] = and(a[i], b[i]);
        i += 1;
    }
    assert(res@ =~= and_word(a@, b@));
    res
}

pub fn or_16(a: [u8; 16], b: [u8; 16]) -> (r: [u8; 16])
    requires
        is_word(a@),
        is_word(b@),
    ensures
        r@ == or_word(a@, b@),
        is_word(r@),
{
    let mut res: [u8; 16] = [0u8; 16];
    let mut i: usize = 0;
    while i < 16
        invariant
            i <= 16,
            is_word(a@),
            is_word(b@),
            res@.len() == 16,
            forall|j: int| 0 <= j < i ==> res@[j] == or_bit(a@[j], b@[j]),
        decreases 16 - i,
    {
        res[i] = or(a[i], b[i]);
        i += 1;
    }
    assert(res@ =~= or_word(a@, b@));
    res
}

/// Selects the word `a` when `sel` is 0 and `b` when `sel` is 1.
pub fn mux_16(a: [u8; 16], b: [u8; 16], sel: u8) -> (r: [u8; 16])
    requires
        is_word(a@),
        is_word(b@),
        is_bit(sel),
    ensures
        r@ == mux_word(a@, b@, sel),
{
    let mut res: [u8; 16] = [0u8; 16];
    let mut i: usize = 0;
    while i < 16
        invariant
            i <= 16,
            is_word(a@),
            is_word(b@),
            is_bit(sel),
            res@.len() == 16,
            forall|j: int| 0 <= j < i ==> res@[j] == mux_word(a@, b@, sel)[j],
        decreases 16 - i,
    {
        res[i] = mux(a[i], b[i], sel);
        i += 1;
    }
    assert(res@ =~= mux_word(a@, b@, sel));
    res
}

/// 1 exactly when at least one of the eight inputs is 1.
pub fn or_8way(inp: [u8; 8]) -> (r: u8)
    requires
        all_bits(inp@),
    ensures
        r == (if inp@.contains(1u8) { 1u8 } else { 0u8 }),
{
    let mut acc: u8 = 0;
    let mut i: usize = 0;
    while i < 8
        invariant
            i <= 8,
            inp@.len() == 8,
            all_bits(inp@),
            is_bit(acc),
            acc == 1 <==> exists|j: int| 0 <= j < i && inp@[j] == 1u8,
        decreases 8 - i,
    {
        acc = or(acc, inp[i]);
        i += 1;
    }
    assert(acc == 1 <==> inp@.contains(1u8));
    acc
}

/// Selects one of four words; `sel[0]` chooses within each pair and `sel[1]`
/// between the pairs.
pub fn mux_4way16(
    a: [u8; 16],
    b: [u8; 16],
    c: [u8; 16],
    d: [u8; 16],
    sel: [u8; 2],
) -> (r: [u8; 16])
    requires
        is_word(a@),
        is_word(b@),
        is_word(c@),
        is_word(d@),
        all_bits(sel@),
    ensures
        r@ == mux4_word(a@, b@, c@, d@, sel@[0], sel@[1]),
{
    let ab = mux_16(a, b, sel[0]);
    let cd = mux_16(c, d, sel[0]);
    mux_16(ab, cd, sel[1])
}

/// Selects one of eight words; `sel[0]` and `sel[1]` choose within each
/// group of four and `sel[2]` between the groups.
pub fn mux_8way16(
    a: [u8; 16],
    b: [u8; 16],
    c: [u8; 16],
    d: [u8; 16],
    e: [u8; 16],
    f: [u8; 16],
    g: [u8; 16],
    h: [u8; 16],
    sel: [u8; 3],
) -> (r: [u8; 16])
    requires
        is_word(a@),
        is_word(b@),
        is_word(c@),
        is_word(d@),
        is_word(e@),
        is_word(f@),
        is_word(g@),
        is_word(h@),
        all_bits(sel@),
    ensures
        r@ == mux8_word(seq![a@, b@, c@, d@, e@, f@, g@, h@], sel@[0], sel@[1], sel@[2]),
{
    let abcd = mux_4way16(a, b, c, d, [sel[0], sel[1]]);
    let efgh = mux_4way16(e, f, g, h, [sel[0], sel[1]]);
    mux_16(abcd, efgh, sel[2])
}

/// Routes `inp` to the one of four outputs that the selector names; the
/// others are 0.
pub fn dmux_4way(inp: u8, sel: [u8; 2]) -> (r: (u8, u8, u8, u8))
    requires
        is_bit(inp),
        all_bits(sel@),
    ensures
        seq![r.0, r.1, r.2, r.3] == route(inp, 4, sel_index2(sel@[0], sel@[1])),
{
    let (ab, cd) = d_mux(inp, sel[1]);
    let (a, b) = d_mux(ab, sel[0]);
    let (c, d) = d_mux(cd, sel[0]);
    assert(seq![a, b, c, d] =~= route(inp, 4, sel_index2(sel@[0], sel@[1])));
    (a, b, c, d)
}

/// Routes `inp` to the one of eight outputs that the selector names; the
/// others are 0.
pub fn dmux_8way(inp: u8, sel: [u8; 3]) -> (r: (u8, u8, u8, u8, u8, u8, u8, u8))
    requires
        is_bit(inp),
        all_bits(sel@),
    ensures
        seq![r.0, r.1, r.2, r.3, r.4, r.5, r.6, r.7] == route(
            inp,
            8,
            sel_index3(sel@[0], sel@[1], sel@[2]),
        ),
{
    let (ae, bf, cg, dh) = dmux_4way(inp, [sel[0], sel[1]]);
    let (a, e) = d_mux(ae, sel[2]);
    let (b, f) = d_mux(bf, sel[2]);
    let (c, g) = d_mux(cg, sel[2]);
    let (d, h) = d_mux(dh, sel[2]);
    assert(seq![a, b, c, d, e, f, g, h] =~= route(inp, 8, sel_index3(sel@[0], sel@[1], sel@[2])));
    (a, b, c, d, e, f, g, h)
}

/// A four-way multiplexer and demultiplexer given the same selector agree:
/// the demultiplexer routes an input of 1 to exactly one output, and the
/// word that the multiplexer picks is the word at that output's position.
pub proof fn lemma_mux4_dmux4_agree(
    a: Seq<u8>,
    b: Seq<u8>,
    c: Seq<u8>,
    d: Seq<u8>,
    s0: u8,
    s1: u8,
    k: int,
)
    requires
        is_bit(s0),
        is_bit(s1),
        0 <= k < 4,
        route(1, 4, sel_index2(s0, s1))[k] == 1,
    ensures
        mux4_word(a, b, c, d, s0, s1) == seq![a, b, c, d][k],
        forall|j: int| 0 <= j < 4 && j != k ==> route(1, 4, sel_index2(s0, s1))[j] == 0,
{
}

/// An eight-way multiplexer and demultiplexer given the same selector agree:
/// the demultiplexer routes an input of 1 to exactly one output, and the
/// word that the multiplexer picks is the word at that output's position.
pub proof fn lemma_mux8_dmux8_agree(ws: Seq<Seq<u8>>, s0: u8, s1: u8, s2: u8, k: int)
    requires
        ws.len() == 8,
        is_bit(s0),
        is_bit(s1),
        is_bit(s2),
        0 <= k < 8,
        route(1, 8, sel_index3(s0, s1, s2))[k] == 1,
    ensures
        mux8_word(ws, s0, s1, s2) == ws[k],
        forall|j: int| 0 <= j < 8 && j != k ==> route(1, 8, sel_index3(s0, s1, s2))[j] == 0,
{
}

} // verus!
