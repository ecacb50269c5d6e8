use nand_logic::gates::{
    and, and_16, d_mux, dmux_4way, dmux_8way, mux, mux_16, mux_4way16, mux_8way16, nand, not,
    not_16, or, or_16, or_8way, xor,
};

fn word(n: u32) -> [u8; 16] {
    let mut w = [0u8; 16];
    for i in 0..16 {
        w[i] = ((n >> i) & 1) as u8;
    }
    w
}

#[test]
fn nand_truth_table() {
    for a in 0..2u8 {
        for b in 0..2u8 {
            assert_eq!(nand(a, b), 1 - (a & b));
        }
    }
    assert_eq!(nand(1, 1), 0);
    assert_eq!(nand(0, 1), 1);
}

#[test]
fn derived_gate_truth_tables() {
    assert_eq!(not(0), 1);
    assert_eq!(not(1), 0);
    let cases = [(0u8, 0u8), (0, 1), (1, 0), (1, 1)];
    let and_out = [0u8, 0, 0, 1];
    let or_out = [0u8, 1, 1, 1];
    let xor_out = [0u8, 1, 1, 0];
    for (k, &(a, b)) in cases.iter().enumerate() {
        assert_eq!(and(a, b), and_out[k]);
        assert_eq!(or(a, b), or_out[k]);
        assert_eq!(xor(a, b), xor_out[k]);
    }
}

#[test]
fn mux_selects_by_sel() {
    for a in 0..2u8 {
        for b in 0..2u8 {
            assert_eq!(mux(a, b, 0), a);
            assert_eq!(mux(a, b, 1), b);
        }
    }
}

#[test]
fn d_mux_routes_by_sel() {
    for inp in 0..2u8 {
        assert_eq!(d_mux(inp, 0), (inp, 0));
        assert_eq!(d_mux(inp, 1), (0, inp));
    }
}

#[test]
fn word_gates_apply_per_position() {
    let a = word(0b1100_1010_0101_0011);
    let b = word(0b1010_0110_1001_0101);
    assert_eq!(not_16(a), word(0b0011_0101_1010_1100));
    assert_eq!(and_16(a, b), word(0b1000_0010_0001_0001));
    assert_eq!(or_16(a, b), word(0b1110_1110_1101_0111));
    assert_eq!(mux_16(a, b, 0), a);
    assert_eq!(mux_16(a, b, 1), b);
}

#[test]
fn or_8way_reduces() {
    assert_eq!(or_8way([0; 8]), 0);
    for i in 0..8 {
        let mut inp = [0u8; 8];
        inp[i] = 1;
        assert_eq!(or_8way(inp), 1);
    }
    assert_eq!(or_8way([1; 8]), 1);
}

#[test]
fn mux_4way16_picks_by_selector() {
    let ws = [word(11), word(22), word(33), word(44)];
    for k in 0..4usize {
        let sel = [(k & 1) as u8, ((k >> 1) & 1) as u8];
        assert_eq!(mux_4way16(ws[0], ws[1], ws[2], ws[3], sel), ws[k]);
    }
}

#[test]
fn mux_8way16_picks_by_selector() {
    let ws: Vec<[u8; 16]> = (0..8u32).map(|k| word(100 + k)).collect();
    for k in 0..8usize {
        let sel = [(k & 1) as u8, ((k >> 1) & 1) as u8, ((k >> 2) & 1) as u8];
        let r = mux_8way16(ws[0], ws[1], ws[2], ws[3], ws[4], ws[5], ws[6], ws[7], sel);
        assert_eq!(r, ws[k]);
    }
}

#[test]
fn mux_and_dmux_4way_agree() {
    let ws = [word(1), word(2), word(3), word(4)];
    for k in 0..4usize {
        let sel = [(k & 1) as u8, ((k >> 1) & 1) as u8];
        let (o0, o1, o2, o3) = dmux_4way(1, sel);
        let outs = [o0, o1, o2, o3];
        assert_eq!(outs.iter().filter(|&&o| o == 1).count(), 1);
        let routed = outs.iter().position(|&o| o == 1).unwrap();
        assert_eq!(routed, k);
        assert_eq!(mux_4way16(ws[0], ws[1], ws[2], ws[3], sel), ws[routed]);
        assert_eq!(dmux_4way(0, sel), (0, 0, 0, 0));
    }
}

#[test]
fn mux_and_dmux_8way_agree() {
    let ws: Vec<[u8; 16]> = (0..8u32).map(|k| word(7 * k + 3)).collect();
    for k in 0..8usize {
        let sel = [(k & 1) as u8, ((k >> 1) & 1) as u8, ((k >> 2) & 1) as u8];
        let (o0, o1, o2, o3, o4, o5, o6, o7) = dmux_8way(1, sel);
        let outs = [o0, o1, o2, o3, o4, o5, o6, o7];
        assert_eq!(outs.iter().filter(|&&o| o == 1).count(), 1);
        let routed = outs.iter().position(|&o| o == 1).unwrap();
        assert_eq!(routed, k);
        let r = mux_8way16(ws[0], ws[1], ws[2], ws[3], ws[4], ws[5], ws[6], ws[7], sel);
        assert_eq!(r, ws[routed]);
    }
}
