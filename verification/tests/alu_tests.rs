use emu8::{
    add_inst, and_inst, bic, biz, bnc, bnz, impl_inst, nand_inst, nimpl_inst, nor_inst, or_inst,
    sub_inst, xnor_inst, xor_inst,
};

type Op = fn(u8, u8, &mut bool, &mut bool, &mut bool, &mut bool) -> u8;

/// Runs an operation and returns (result, carry, zero).
fn run(op: Op, a: u8, b: u8, ignore: bool, shift: bool, carry: bool, zero: bool) -> (u8, bool, bool) {
    let mut ignore_flags = ignore;
    let mut shift_right = shift;
    let mut carry_flag = carry;
    let mut zero_flag = zero;
    let r = op(a, b, &mut ignore_flags, &mut shift_right, &mut carry_flag, &mut zero_flag);
    assert_eq!(ignore_flags, ignore);
    assert_eq!(shift_right, shift);
    (r, carry_flag, zero_flag)
}

#[test]
fn add_sets_carry_and_zero() {
    assert_eq!(run(add_inst, 5, 7, false, false, true, true), (12, false, false));
    assert_eq!(run(add_inst, 200, 100, false, false, false, true), (44, true, false));
    assert_eq!(run(add_inst, 128, 128, false, false, false, false), (0, true, true));
    assert_eq!(run(add_inst, 255, 255, false, true, false, false), (255, false, false));
    assert_eq!(run(add_inst, 1, 0, false, true, true, false), (0, false, true));
}

#[test]
fn add_carry_law_on_values() {
    for (a, b) in [(0u8, 0u8), (255, 1), (17, 240), (255, 255), (100, 27)] {
        let (r, c, _) = run(add_inst, a, b, false, false, false, false);
        assert_eq!(r as u16 + 256 * c as u16, a as u16 + b as u16);
    }
}

#[test]
fn sub_wraps_and_carries_when_greater() {
    assert_eq!(run(sub_inst, 10, 3, false, false, false, false), (7, true, false));
    assert_eq!(run(sub_inst, 3, 10, false, false, true, false), (249, false, false));
    assert_eq!(run(sub_inst, 9, 9, false, false, true, false), (0, false, true));
    assert_eq!(run(sub_inst, 0, 1, false, true, false, false), (127, false, false));
    assert_eq!(run(sub_inst, 0, 255, false, false, false, false), (1, false, false));
}

#[test]
fn logic_operations() {
    let a = 0b1100_1010u8;
    let b = 0b1010_0110u8;
    assert_eq!(run(or_inst, a, b, false, false, true, true), (a | b, false, false));
    assert_eq!(run(nor_inst, a, b, false, false, false, true), (!(a | b), true, false));
    assert_eq!(run(and_inst, a, b, false, false, false, true), (a & b, true, false));
    assert_eq!(run(nand_inst, a, b, false, false, false, true), (!(a & b), true, false));
    assert_eq!(run(xor_inst, a, b, false, false, false, true), (a ^ b, true, false));
    assert_eq!(run(xnor_inst, a, b, false, false, false, true), (!(a ^ b), true, false));
    assert_eq!(run(impl_inst, a, b, false, false, true, true), (a & !b, false, false));
    assert_eq!(run(nimpl_inst, a, b, false, false, false, true), (!(a & !b), true, false));
}

#[test]
fn logic_shift_halves() {
    assert_eq!(run(or_inst, 0b1000_0001, 0, false, true, false, false), (0b0100_0000, false, false));
    assert_eq!(run(xor_inst, 1, 0, false, true, false, false), (0, true, true));
    assert_eq!(run(nor_inst, 0, 0, false, true, false, false), (127, true, false));
}

#[test]
fn zero_flag_follows_result() {
    assert_eq!(run(and_inst, 0xf0, 0x0f, false, false, false, false), (0, true, true));
    assert_eq!(run(xnor_inst, 0xff, 0x00, false, false, false, false), (0, true, true));
}

#[test]
fn ignored_flags_keep_their_values() {
    let ops: [Op; 10] = [
        add_inst, sub_inst, or_inst, nor_inst, and_inst, nand_inst, xor_inst, xnor_inst,
        impl_inst, nimpl_inst,
    ];
    for op in ops {
        for (c, z) in [(false, false), (false, true), (true, false), (true, true)] {
            let (_, c2, z2) = run(op, 0xff, 0x01, true, false, c, z);
            assert_eq!((c2, z2), (c, z));
        }
    }
}

#[test]
fn branches_follow_flags() {
    let mut pc = 8u32;
    let mut zero = true;
    assert!(biz(&mut pc, &mut zero, 100));
    assert_eq!(pc, 100);
    let mut pc = 8u32;
    assert!(!bnz(&mut pc, &mut zero, 100));
    assert_eq!(pc, 8);
    let mut carry = false;
    assert!(!bic(&mut pc, &mut carry, 40));
    assert_eq!(pc, 8);
    assert!(bnc(&mut pc, &mut carry, 40));
    assert_eq!(pc, 40);
    assert!(zero);
    assert!(!carry);
}
