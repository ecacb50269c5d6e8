use nand_logic::alu::{add_16, alu, full_adder, half_adder, inc_16};
use nand_logic::gates::and_16;

fn word(n: u32) -> [u8; 16] {
    let mut w = [0u8; 16];
    for i in 0..16 {
        w[i] = ((n >> i) & 1) as u8;
    }
    w
}

fn value(w: [u8; 16]) -> u32 {
    let mut n = 0u32;
    for i in 0..16 {
        n |= (w[i] as u32) << i;
    }
    n
}

#[test]
fn half_adder_table() {
    assert_eq!(half_adder(0, 0), (0, 0));
    assert_eq!(half_adder(0, 1), (1, 0));
    assert_eq!(half_adder(1, 0), (1, 0));
    assert_eq!(half_adder(1, 1), (0, 1));
}

#[test]
fn full_adder_table() {
    for a in 0..2u8 {
        for b in 0..2u8 {
            for c in 0..2u8 {
                let (s, carry) = full_adder(a, b, c);
                assert_eq!(s + 2 * carry, a + b + c);
            }
        }
    }
    assert_eq!(full_adder(1, 1, 1), (1, 1));
}

#[test]
fn add_16_five_plus_three() {
    assert_eq!(add_16(word(5), word(3)), word(8));
}

#[test]
fn add_16_wraps() {
    assert_eq!(add_16(word(0xFFFF), word(1)), word(0));
    assert_eq!(add_16(word(0xFFFF), word(0xFFFF)), word(0xFFFE));
    assert_eq!(add_16(word(40000), word(30000)), word(70000 - 65536));
}

#[test]
fn inc_16_cases() {
    assert_eq!(inc_16(word(0)), word(1));
    assert_eq!(inc_16(word(0xFFFF)), word(0));
    assert_eq!(inc_16(word(0x00FF)), word(0x0100));
}

#[test]
fn alu_constant_zero() {
    for &(x, y) in &[(0u32, 0u32), (5, 3), (0xFFFF, 0x1234)] {
        assert_eq!(alu(word(x), word(y), 1, 0, 1, 0, 1, 0), (word(0), 1, 0));
    }
}

#[test]
fn alu_add() {
    for &(x, y) in &[(5u32, 3u32), (0xFFFF, 1), (0x7FFF, 1), (0, 0)] {
        let sum = add_16(word(x), word(y));
        let zr = if value(sum) == 0 { 1 } else { 0 };
        assert_eq!(alu(word(x), word(y), 0, 0, 0, 0, 1, 0), (sum, zr, sum[15]));
    }
    assert_eq!(alu(word(0x7FFF), word(1), 0, 0, 0, 0, 1, 0), (word(0x8000), 0, 1));
}

#[test]
fn alu_and() {
    let (x, y) = (word(0b1100), word(0b1010));
    assert_eq!(alu(x, y, 0, 0, 0, 0, 0, 0), (and_16(x, y), 0, 0));
    assert_eq!(alu(x, y, 0, 0, 0, 0, 0, 0).0, word(0b1000));
}

#[test]
fn alu_constant_one_and_minus_one() {
    assert_eq!(alu(word(9), word(4), 1, 1, 1, 1, 1, 1), (word(1), 0, 0));
    assert_eq!(alu(word(9), word(4), 1, 1, 1, 0, 1, 0), (word(0xFFFF), 0, 1));
}

#[test]
fn alu_negation_and_difference() {
    // x - y is computed as NOT(NOT x + y).
    assert_eq!(alu(word(9), word(4), 0, 1, 0, 0, 1, 1), (word(5), 0, 0));
    // -x is computed as NOT(x + (-1)).
    assert_eq!(alu(word(1), word(0), 0, 0, 1, 1, 1, 1), (word(0xFFFF), 0, 1));
    // NOT x.
    assert_eq!(alu(word(0), word(7), 0, 0, 1, 1, 0, 1), (word(0xFFFF), 0, 1));
}
