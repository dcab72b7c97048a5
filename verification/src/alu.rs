use vstd::prelude::*;

verus! {

/// The value before the optional right shift: what operation `op` (the low
/// nibble of an instruction's first byte) computes from its two operands.
/// Codes 10..=14 (the jumps and branches) add, as code 0 does.
pub open spec fn raw_result(op: u8, a: u8, b: u8) -> int {
    if op == 1 {
        (a - b) % 256
    } else if op == 2 {
        (a | b) as int
    } else if op == 3 {
        (!(a | b)) as int
    } else if op == 4 {
        (a & b) as int
    } else if op == 5 {
        (!(a & b)) as int
    } else if op == 6 {
        (a ^ b) as int
    } else if op == 7 {
        (!(a ^ b)) as int
    } else if op == 8 {
        (a & !b) as int
    } else if op == 9 {
        (!(a & !b)) as int
    } else {
        a + b
    }
}

/// Halves `v` when the shift bit is set.
pub open spec fn shifted(v: int, shift: bool) -> int {
    if shift {
        v / 2
    } else {
        v
    }
}

/// The byte that operation `op` stores.
pub open spec fn alu_result(op: u8, a: u8, b: u8, shift: bool) -> u8 {
    (shifted(raw_result(op, a, b), shift) % 256) as u8
}

/// The carry that operation `op` reports: the carry out of bit 7 for an
/// addition, `a > b` for a subtraction, cleared by OR and IMPL, set by the
/// other logic operations.
pub open spec fn alu_carry(op: u8, a: u8, b: u8, shift: bool) -> bool {
    if op == 1 {
        a > b
    } else if op == 2 || op == 8 {
        false
    } else if 3 <= op <= 9 {
        true
    } else {
        shifted(a + b, shift) > 255
    }
}

/// The flags after an operation: unchanged when flag updates are suppressed,
/// otherwise the operation's carry and whether the stored byte is zero.
pub open spec fn flags_after(
    op: u8,
    a: u8,
    b: u8,
    shift: bool,
    ignore: bool,
    carry: bool,
    zero: bool,
) -> (bool, bool) {
    if ignore {
        (carry, zero)
    } else {
        (alu_carry(op, a, b, shift), alu_result(op, a, b, shift) == 0)
    }
}

/// Writes the zero flag unless flag updates are suppressed.
fn update_zero(result: u8, ignore_flags: bool, zero_flag: &mut bool)
    ensures
        *final(zero_flag) == if ignore_flags {
            *old(zero_flag)
        } else {
            result == 0
        },
{
    if !ignore_flags {
        if result == 0 {
            *zero_flag = true;
        } else {
            *zero_flag = false;
        }
    }
}

/// Addition: the sum, halved when `shift_right` is set, truncated to a byte;
/// the carry is set when the (halved) sum exceeds 255.
pub fn add_inst(
    in1: u8,
    in2: u8,
    ignore_flags: &mut bool,
    shift_right: &mut bool,
    carry_flag: &mut bool,
    zero_flag: &mut bool,
) -> (result: u8)
    ensures
        *final(ignore_flags) == *old(ignore_flags),
        *final(shift_right) == *old(shift_right),
        result == alu_result(0, in1, in2, *old(shift_right)),
        (*final(carry_flag), *final(zero_flag)) == flags_after(
            0,
            in1,
            in2,
            *old(shift_right),
            *old(ignore_flags),
            *old(carry_flag),
            *old(zero_flag),
        ),
{
    let mut result: u16 = in1 as u16 + in2 as u16;
    if *shift_right {
        result = result / 2;
    }
    if !*ignore_flags {
        if result > 255 {
            *carry_flag = true;
        } else {
            *carry_flag = false;
        }
    }
    let masked: u16 = result & 255;
    assert(masked == result % 256) by (bit_vector)
        requires
            masked == result & 255,
    ;
    let result: u8 = masked as u8;
    update_zero(result, *ignore_flags, zero_flag);
    result
}

/// Subtraction modulo 256, halved when `shift_right` is set; the carry is set
/// when `in1 > in2`.
pub fn sub_inst(
    in1: u8,
    in2: u8,
    ignore_flags: &mut bool,
    shift_right: &mut bool,
    carry_flag: &mut bool,
    zero_flag: &mut bool,
) -> (result: u8)
    ensures
        *final(ignore_flags) == *old(ignore_flags),
        *final(shift_right) == *old(shift_right),
        result == alu_result(1, in1, in2, *old(shift_right)),
        (*final(carry_flag), *final(zero_flag)) == flags_after(
            1,
            in1,
            in2,
            *old(shift_right),
            *old(ignore_flags),
            *old(carry_flag),
            *old(zero_flag),
        ),
{
    let mut result: i16 = in1 as i16 - in2 as i16;
    assert(result == in1 - in2);
    if result < 0 {
        assert(-255 <= result < 0);
        result = -result;
        let r0: i16 = result;
        result = result & 255;
        assert(result == r0) by (bit_vector)
            requires
                0 < r0 <= 255,
                result == r0 & 255,
        ;
        result = 255 - result;
        result = result + 1;
    }
    assert(result == (in1 - in2) % 256);
    if *shift_right {
        result = result / 2;
    }
    let result: u8 = result as u8;
    if !*ignore_flags {
        if in1 > in2 {
            *carry_flag = true;
        } else {
            *carry_flag = false;
        }
    }
    update_zero(result, *ignore_flags, zero_flag);
    result
}

/// Halves `v` when `shift` is set, as the logic operations do.
fn shift_byte(v: u8, shift: bool) -> (r: u8)
    ensures
        r == shifted(v as int, shift),
{
    if shift {
        v / 2
    } else {
        v
    }
}

/// Bitwise OR; clears the carry.
pub fn or_inst(
    in1: u8,
    in2: u8,
    ignore_flags: &mut bool,
    shift_right: &mut bool,
    carry_flag: &mut bool,
    zero_flag: &mut bool,
) -> (result: u8)
    ensures
        *final(ignore_flags) == *old(ignore_flags),
        *final(shift_right) == *old(shift_right),
        result == alu_result(2, in1, in2, *old(shift_right)),
        (*final(carry_flag), *final(zero_flag)) == flags_after(
            2,
            in1,
            in2,
            *old(shift_right),
            *old(ignore_flags),
            *old(carry_flag),
            *old(zero_flag),
        ),
{
    let result: u8 = shift_byte(in1 | in2, *shift_right);
    if !*ignore_flags {
        *carry_flag = false;
    }
    update_zero(result, *ignore_flags, zero_flag);
    result
}

/// Bitwise NOR; sets the carry.
pub fn nor_inst(
    in1: u8,
    in2: u8,
    ignore_flags: &mut bool,
    shift_right: &mut bool,
    carry_flag: &mut bool,
    zero_flag: &mut bool,
) -> (result: u8)
    ensures
        *final(ignore_flags) == *old(ignore_flags),
        *final(shift_right) == *old(shift_right),
        result == alu_result(3, in1, in2, *old(shift_right)),
        (*final(carry_flag), *final(zero_flag)) == flags_after(
            3,
            in1,
            in2,
            *old(shift_right),
            *old(ignore_flags),
            *old(carry_flag),
            *old(zero_flag),
        ),
{
    let result: u8 = shift_byte(!(in1 | in2), *shift_right);
    if !*ignore_flags {
        *carry_flag = true;
    }
    update_zero(result, *ignore_flags, zero_flag);
    result
}

/// Bitwise AND; sets the carry.
pub fn and_inst(
    in1: u8,
    in2: u8,
    ignore_flags: &mut bool,
    shift_right: &mut bool,
    carry_flag: &mut bool,
    zero_flag: &mut bool,
) -> (result: u8)
    ensures
        *final(ignore_flags) == *old(ignore_flags),
        *final(shift_right) == *old(shift_right),
        result == alu_result(4, in1, in2, *old(shift_right)),
        (*final(carry_flag), *final(zero_flag)) == flags_after(
            4,
            in1,
            in2,
            *old(shift_right),
            *old(ignore_flags),
            *old(carry_flag),
            *old(zero_flag),
        ),
{
    let result: u8 = shift_byte(in1 & in2, *shift_right);
    if !*ignore_flags {
        *carry_flag = true;
    }
    update_zero(result, *ignore_flags, zero_flag);
    result
}

/// Bitwise NAND; sets the carry.
pub fn nand_inst(
    in1: u8,
    in2: u8,
    ignore_flags: &mut bool,
    shift_right: &mut bool,
    carry_flag: &mut bool,
    zero_flag: &mut bool,
) -> (result: u8)
    ensures
        *final(ignore_flags) == *old(ignore_flags),
        *final(shift_right) == *old(shift_right),
        result == alu_result(5, in1, in2, *old(shift_right)),
        (*final(carry_flag), *final(zero_flag)) == flags_after(
            5,
            in1,
            in2,
            *old(shift_right),
            *old(ignore_flags),
            *old(carry_flag),
            *old(zero_flag),
        ),
{
    let result: u8 = shift_byte(!(in1 & in2), *shift_right);
    if !*ignore_flags {
        *carry_flag = true;
    }
    update_zero(result, *ignore_flags, zero_flag);
    result
}

/// Bitwise XOR; sets the carry.
pub fn xor_inst(
    in1: u8,
    in2: u8,
    ignore_flags: &mut bool,
    shift_right: &mut bool,
    carry_flag: &mut bool,
    zero_flag: &mut bool,
) -> (result: u8)
    ensures
        *final(ignore_flags) == *old(ignore_flags),
        *final(shift_right) == *old(shift_right),
        result == alu_result(6, in1, in2, *old(shift_right)),
        (*final(carry_flag), *final(zero_flag)) == flags_after(
            6,
            in1,
            in2,
            *old(shift_right),
            *old(ignore_flags),
            *old(carry_flag),
            *old(zero_flag),
        ),
{
    let result: u8 = shift_byte(in1 ^ in2, *shift_right);
    if !*ignore_flags {
        *carry_flag = true;
    }
    update_zero(result, *ignore_flags, zero_flag);
    result
}

/// Bitwise XNOR; sets the carry.
pub fn xnor_inst(
    in1: u8,
    in2: u8,
    ignore_flags: &mut bool,
    shift_right: &mut bool,
    carry_flag: &mut bool,
    zero_flag: &mut bool,
) -> (result: u8)
    ensures
        *final(ignore_flags) == *old(ignore_flags),
        *final(shift_right) == *old(shift_right),
        result == alu_result(7, in1, in2, *old(shift_right)),
        (*final(carry_flag), *final(zero_flag)) == flags_after(
            7,
            in1,
            in2,
            *old(shift_right),
            *old(ignore_flags),
            *old(carry_flag),
            *old(zero_flag),
        ),
{
    let result: u8 = shift_byte(!(in1 ^ in2), *shift_right);
    if !*ignore_flags {
        *carry_flag = true;
    }
    update_zero(result, *ignore_flags, zero_flag);
    result
}

/// `in1 AND NOT in2`; clears the carry.
pub fn impl_inst(
    in1: u8,
    in2: u8,
    ignore_flags: &mut bool,
    shift_right: &mut bool,
    carry_flag: &mut bool,
    zero_flag: &mut bool,
) -> (result: u8)
    ensures
        *final(ignore_flags) == *old(ignore_flags),
        *final(shift_right) == *old(shift_right),
        result == alu_result(8, in1, in2, *old(shift_right)),
        (*final(carry_flag), *final(zero_flag)) == flags_after(
            8,
            in1,
            in2,
            *old(shift_right),
            *old(ignore_flags),
            *old(carry_flag),
            *old(zero_flag),
        ),
{
    let result: u8 = shift_byte(in1 & !in2, *shift_right);
    if !*ignore_flags {
        *carry_flag = false;
    }
    update_zero(result, *ignore_flags, zero_flag);
    result
}

/// `NOT (in1 AND NOT in2)`; sets the carry.
pub fn nimpl_inst(
    in1: u8,
    in2: u8,
    ignore_flags: &mut bool,
    shift_right: &mut bool,
    carry_flag: &mut bool,
    zero_flag: &mut bool,
) -> (result: u8)
    ensures
        *final(ignore_flags) == *old(ignore_flags),
        *final(shift_right) == *old(shift_right),
        result == alu_result(9, in1, in2, *old(shift_right)),
        (*final(carry_flag), *final(zero_flag)) == flags_after(
            9,
            in1,
            in2,
            *old(shift_right),
            *old(ignore_flags),
            *old(carry_flag),
            *old(zero_flag),
        ),
{
    let result: u8 = shift_byte(!(in1 & !in2), *shift_right);
    if !*ignore_flags {
        *carry_flag = true;
    }
    update_zero(result, *ignore_flags, zero_flag);
    result
}

/// Branch if zero: jumps to `addr` when the zero flag is set.
pub fn biz(pc: &mut u32, zero_flag: &mut bool, addr: u32) -> (taken: bool)
    ensures
        taken == *old(zero_flag),
        *final(pc) == if taken {
            addr
        } else {
            *old(pc)
        },
        *final(zero_flag) == *old(zero_flag),
{
    if *zero_flag {
        *pc = addr;
        return true;
    }
    false
}

/// Branch if not zero: jumps to `addr` when the zero flag is clear.
pub fn bnz(pc: &mut u32, zero_flag: &mut bool, addr: u32) -> (taken: bool)
    ensures
        taken == !*old(zero_flag),
        *final(pc) == if taken {
            addr
        } else {
            *old(pc)
        },
        *final(zero_flag) == *old(zero_flag),
{
    if !*zero_flag {
        *pc = addr;
        return true;
    }
    false
}

/// Branch if carry: jumps to `addr` when the carry flag is set.
pub fn bic(pc: &mut u32, carry_flag: &mut bool, addr: u32) -> (taken: bool)
    ensures
        taken == *old(carry_flag),
        *final(pc) == if taken {
            addr
        } else {
            *old(pc)
        },
        *final(carry_flag) == *old(carry_flag),
{
    if *carry_flag {
        *pc = addr;
        return true;
    }
    false
}

/// Branch if not carry: jumps to `addr` when the carry flag is clear.
pub fn bnc(pc: &mut u32, carry_flag: &mut bool, addr: u32) -> (taken: bool)
    ensures
        taken == !*old(carry_flag),
        *final(pc) == if taken {
            addr
        } else {
            *old(pc)
        },
        *final(carry_flag) == *old(carry_flag),
{
    if !*carry_flag {
        *pc = addr;
        return true;
    }
    false
}

} // verus!

verus! {

/// Without the shift, the stored byte and the carry together are the exact
/// sum: `result + 256 * carry == in1 + in2`.
pub proof fn lemma_add_carry(a: u8, b: u8)
    ensures
        alu_result(0, a, b, false) + 256 * (if alu_carry(0, a, b, false) {
            1int
        } else {
            0int
        }) == a + b,
{
}

/// With the shift, an addition never carries, and stores the halved sum.
pub proof fn lemma_shifted_add(a: u8, b: u8)
    ensures
        !alu_carry(0, a, b, true),
        alu_result(0, a, b, true) == (a + b) / 2,
{
}

/// Without the shift, a subtraction stores `in1 - in2` when it carries
/// (`in1 > in2`) and `in1 - in2 + 256` when `in1 < in2`.
pub proof fn lemma_sub_wraps(a: u8, b: u8)
    ensures
        alu_carry(1, a, b, false) ==> alu_result(1, a, b, false) == a - b,
        a < b ==> alu_result(1, a, b, false) == a - b + 256,
        a == b ==> alu_result(1, a, b, false) == 0 && !alu_carry(1, a, b, false),
{
}

} // verus!

verus! {

/// Addition stores the sum (halved when shifting) modulo 256 and carries
/// exactly when that value does not fit in a byte.
pub proof fn lemma_add_meaning(a: u8, b: u8, shift: bool)
    ensures
        alu_result(0, a, b, shift) == if shift {
            (a + b) / 2
        } else {
            (a + b) % 256
        },
        alu_carry(0, a, b, shift) == (if shift {
            (a + b) / 2
        } else {
            a + b
        } > 255),
{
}

/// The logic operations compute their bitwise formulas, and the
/// subtraction stores a byte `r` with `r + b == a` modulo 256.
pub proof fn lemma_operation_meaning(a: u8, b: u8)
    ensures
        (alu_result(1, a, b, false) + b) % 256 == a as int,
        alu_result(2, a, b, false) == a | b,
        alu_result(3, a, b, false) == !(a | b),
        alu_result(4, a, b, false) == a & b,
        alu_result(5, a, b, false) == !(a & b),
        alu_result(6, a, b, false) == a ^ b,
        alu_result(7, a, b, false) == !(a ^ b),
        alu_result(8, a, b, false) == a & !b,
        alu_result(9, a, b, false) == !(a & !b),
        alu_carry(1, a, b, false) == (a > b),
        !alu_carry(2, a, b, false) && !alu_carry(8, a, b, false),
        alu_carry(3, a, b, false) && alu_carry(4, a, b, false) && alu_carry(5, a, b, false),
        alu_carry(6, a, b, false) && alu_carry(7, a, b, false) && alu_carry(9, a, b, false),
{
}

/// The jump and branch codes 10..=14 compute an addition, like code 0.
pub proof fn lemma_branch_codes_add(op: u8, a: u8, b: u8, shift: bool)
    requires
        10 <= op <= 14,
    ensures
        alu_result(op, a, b, shift) == alu_result(0, a, b, shift),
        alu_carry(op, a, b, shift) == alu_carry(0, a, b, shift),
{
}

/// NOR, NAND, XNOR and NIMPL are the complements of OR, AND, XOR and IMPL.
pub proof fn lemma_complement_pairs(a: u8, b: u8)
    ensures
        alu_result(3, a, b, false) == !alu_result(2, a, b, false),
        alu_result(5, a, b, false) == !alu_result(4, a, b, false),
        alu_result(7, a, b, false) == !alu_result(6, a, b, false),
        alu_result(9, a, b, false) == !alu_result(8, a, b, false),
{
}

/// For every operation but addition (codes 1..=9), the shift halves the
/// result the operation computes without it.
pub proof fn lemma_shift_halves(op: u8, a: u8, b: u8)
    requires
        1 <= op <= 9,
    ensures
        alu_result(op, a, b, true) == alu_result(op, a, b, false) / 2,
        alu_carry(op, a, b, true) == alu_carry(op, a, b, false),
{
    assert(0 <= raw_result(op, a, b) < 256);
}

/// Every operation's zero flag (when flags are updated) tells whether the
/// stored byte is zero, and suppressed flags keep their values.
pub proof fn lemma_flags_meaning(
    op: u8,
    a: u8,
    b: u8,
    shift: bool,
    ignore: bool,
    carry: bool,
    zero: bool,
)
    ensures
        ignore ==> flags_after(op, a, b, shift, ignore, carry, zero) == (carry, zero),
        !ignore ==> flags_after(op, a, b, shift, ignore, carry, zero).1 == (alu_result(
            op,
            a,
            b,
            shift,
        ) == 0),
        !ignore ==> flags_after(op, a, b, shift, ignore, carry, zero).0 == alu_carry(
            op,
            a,
            b,
            shift,
        ),
{
}

} // verus!
