//! What the emitted instructions compute, next to what Move prescribes, and
//! the proofs that the translator's lowering of arithmetic, comparisons,
//! negation and casts keeps Move's meaning, including its aborts.

use vstd::prelude::*;
use vstd::arithmetic::div_mod::{lemma_mod_multiples_vanish, lemma_small_mod};
use vstd::arithmetic::power2::{lemma_pow2_pos, lemma_pow2_strictly_increases, pow2};

use crate::lowering::{
    arith_table, check_comparison_of, compare_table, pow2_128_is_u128_bound, call_lowering_of, ArithLowering, BinaryOpcode, CallLowering, CastLowering, CheckComparison,
    CheckOperand, Conversion, EmitterFnKind, IntPredicate, Operation,
};
use crate::types::{bitwidth, has_bitwidth, is_bool_type, is_number_type, MoveType};

verus! {

/// Bitwise "or" of two naturals.
pub open spec fn bits_or(a: nat, b: nat) -> nat
    decreases a + b,
{
    if a == 0 && b == 0 {
        0
    } else {
        (if a % 2 == 1 || b % 2 == 1 {
            1nat
        } else {
            0nat
        }) + 2 * bits_or(a / 2, b / 2)
    }
}

/// Bitwise "and" of two naturals.
pub open spec fn bits_and(a: nat, b: nat) -> nat
    decreases a + b,
{
    if a == 0 || b == 0 {
        0
    } else {
        (if a % 2 == 1 && b % 2 == 1 {
            1nat
        } else {
            0nat
        }) + 2 * bits_and(a / 2, b / 2)
    }
}

/// Bitwise "exclusive or" of two naturals.
pub open spec fn bits_xor(a: nat, b: nat) -> nat
    decreases a + b,
{
    if a == 0 && b == 0 {
        0
    } else {
        (if a % 2 != b % 2 {
            1nat
        } else {
            0nat
        }) + 2 * bits_xor(a / 2, b / 2)
    }
}

/// The truth of an LLVM integer comparison on unsigned values.
pub open spec fn predicate_holds(pred: IntPredicate, a: int, b: int) -> bool {
    match pred {
        IntPredicate::EQ => a == b,
        IntPredicate::NE => a != b,
        IntPredicate::UGT => a > b,
        IntPredicate::UGE => a >= b,
        IntPredicate::ULT => a < b,
        IntPredicate::ULE => a <= b,
    }
}

/// The value that a check operand denotes, given the operands and the
/// result of the checked instruction.
pub open spec fn operand_value(o: CheckOperand, a: int, b: int, d: int) -> int {
    match o {
        CheckOperand::Src0 => a,
        CheckOperand::Src1 => b,
        CheckOperand::Dst => d,
        CheckOperand::Constant(c) => c as int,
    }
}

/// Whether a check aborts the program.
pub open spec fn check_fires(c: Option<CheckComparison>, a: int, b: int, d: int) -> bool {
    match c {
        None => false,
        Some(c) => predicate_holds(c.pred, operand_value(c.lhs, a, b, d), operand_value(c.rhs, a, b, d)),
    }
}

/// The value of an LLVM binary instruction on unsigned `w`-bit operands:
/// wrapping addition, subtraction and multiplication, unsigned division
/// and remainder, bitwise operations, and logical shifts. Division and
/// remainder by zero and shifts by `w` or more have no defined value in
/// LLVM; they are given an arbitrary one here.
pub open spec fn llvm_binary(op: BinaryOpcode, w: nat, a: int, b: int) -> int {
    let m = pow2(w) as int;
    match op {
        BinaryOpcode::Add => (a + b) % m,
        BinaryOpcode::Sub => (a - b) % m,
        BinaryOpcode::Mul => (a * b) % m,
        BinaryOpcode::UDiv => if b == 0 {
            0
        } else {
            a / b
        },
        BinaryOpcode::URem => if b == 0 {
            0
        } else {
            a % b
        },
        BinaryOpcode::Or => bits_or(a as nat, b as nat) as int,
        BinaryOpcode::And => bits_and(a as nat, b as nat) as int,
        BinaryOpcode::Xor => bits_xor(a as nat, b as nat) as int,
        BinaryOpcode::Shl => (a * pow2(b as nat)) % m,
        BinaryOpcode::LShr => a / (pow2(b as nat) as int),
    }
}

/// What the instructions emitted for an arithmetic operation on `w`-bit
/// operands `a` and `b` produce: `None` where a check aborts the program,
/// else the value stored into the result.
pub open spec fn lowered_arith_result(l: ArithLowering, w: nat, a: int, b: int) -> Option<int> {
    if l.emitter.kind == EmitterFnKind::PreCheck && check_fires(l.check, a, b, 0) {
        None
    } else {
        let d = llvm_binary(l.opcode, w, a, b);
        if l.emitter.kind == EmitterFnKind::PostCheck && check_fires(l.check, a, b, d) {
            None
        } else {
            Some(d)
        }
    }
}

/// The result of a Move arithmetic or logical operation on `w`-bit
/// unsigned operands (booleans are 0 and 1): `None` where Move aborts with
/// an arithmetic error (overflow, underflow, division by zero, or a shift
/// by the bit width or more).
pub open spec fn move_arith(op: Operation, w: nat, a: int, b: int) -> Option<int> {
    let m = pow2(w) as int;
    match op {
        Operation::Add => if a + b < m {
            Some(a + b)
        } else {
            None
        },
        Operation::Sub => if b <= a {
            Some(a - b)
        } else {
            None
        },
        Operation::Mul => if a * b < m {
            Some(a * b)
        } else {
            None
        },
        Operation::Div => if b == 0 {
            None
        } else {
            Some(a / b)
        },
        Operation::Mod => if b == 0 {
            None
        } else {
            Some(a % b)
        },
        Operation::BitOr => Some(bits_or(a as nat, b as nat) as int),
        Operation::BitAnd => Some(bits_and(a as nat, b as nat) as int),
        Operation::Xor => Some(bits_xor(a as nat, b as nat) as int),
        Operation::Shl => if b >= w {
            None
        } else {
            Some((a * pow2(b as nat)) % m)
        },
        Operation::Shr => if b >= w {
            None
        } else {
            Some(a / (pow2(b as nat) as int))
        },
        Operation::Or => Some(
            if a == 1 || b == 1 {
                1
            } else {
                0
            },
        ),
        Operation::And => Some(
            if a == 1 && b == 1 {
                1
            } else {
                0
            },
        ),
        _ => None,
    }
}

/// The operations that the translator lowers to a binary instruction.
pub open spec fn is_arith_operation(op: Operation) -> bool {
    match op {
        Operation::Add | Operation::Sub | Operation::Mul | Operation::Div | Operation::Mod
        | Operation::BitOr | Operation::BitAnd | Operation::Xor | Operation::Shl | Operation::Shr
        | Operation::Or | Operation::And => true,
        _ => false,
    }
}

/// The inputs on which the emitted code is known to differ from Move:
/// multiplication overflow is not checked, and remainder by zero is not
/// checked.
pub open spec fn arith_exception(op: Operation, w: nat, a: int, b: int) -> bool {
    match op {
        Operation::Mul => a * b >= pow2(w),
        Operation::Mod => b == 0,
        _ => false,
    }
}

proof fn bool_bits(a: int, b: int)
    requires
        0 <= a <= 1,
        0 <= b <= 1,
    ensures
        bits_or(a as nat, b as nat) == (if a == 1 || b == 1 {
            1nat
        } else {
            0nat
        }),
        bits_and(a as nat, b as nat) == (if a == 1 && b == 1 {
            1nat
        } else {
            0nat
        }),
        bits_xor(a as nat, 1) == (if a == 0 {
            1nat
        } else {
            0nat
        }),
{
    assert(bits_or(0, 0) == 0);
    assert(bits_and(0, 0) == 0);
    assert(bits_xor(0, 0) == 0);
    assert(bits_or(a as nat, b as nat) == (if a == 1 || b == 1 {
        1nat
    } else {
        0nat
    }) + 2 * bits_or(0, 0));
    assert(bits_xor(a as nat, 1) == (if a == 0 {
        1nat
    } else {
        0nat
    }) + 2 * bits_xor(0, 0));
    if a != 0 && b != 0 {
        assert(bits_and(a as nat, b as nat) == 1 + 2 * bits_and(0, 0));
    }
}

/// The emitted instructions of one arithmetic or logical operation agree
/// with Move on `w`-bit operands, for a lowering with that operation's
/// opcode and check.
proof fn arith_case(op: Operation, l: ArithLowering, w: nat, a: int, b: int)
    requires
        is_arith_operation(op),
        arith_table(op) matches Some((_, opcode, emitter)) && l.opcode == opcode && l.emitter
            == emitter,
        l.check == check_comparison_of(
            l.emitter.check,
            if op == Operation::Shl || op == Operation::Shr {
                w
            } else {
                0
            },
        ),
        w <= 256,
        0 <= a < pow2(w),
        op == Operation::Shl || op == Operation::Shr ==> 0 <= b < 256,
        op != Operation::Shl && op != Operation::Shr ==> 0 <= b < pow2(w),
        op == Operation::Or || op == Operation::And ==> w == 1,
        op != Operation::Or && op != Operation::And ==> w >= 8,
        !arith_exception(op, w, a, b),
    ensures
        lowered_arith_result(l, w, a, b) == move_arith(op, w, a, b),
{
    let m = pow2(w) as int;
    lemma_pow2_pos(w);
    match op {
        Operation::Add => {
            assert(b < m);
            if a + b < m {
                lemma_small_mod((a + b) as nat, m as nat);
                assert(llvm_binary(l.opcode, w, a, b) == a + b);
                assert(!check_fires(l.check, a, b, a + b));
                assert(lowered_arith_result(l, w, a, b) == Some(a + b));
                assert(move_arith(op, w, a, b) == Some(a + b));
            } else {
                lemma_mod_multiples_vanish(1, a + b - m, m);
                lemma_small_mod((a + b - m) as nat, m as nat);
                assert(llvm_binary(l.opcode, w, a, b) == a + b - m);
                assert(check_fires(l.check, a, b, a + b - m));
                assert(lowered_arith_result(l, w, a, b) == None::<int>);
                assert(move_arith(op, w, a, b) == None::<int>);
            }
        },
        Operation::Sub => {
            assert(b < m);
            if b <= a {
                lemma_small_mod((a - b) as nat, m as nat);
                assert(llvm_binary(l.opcode, w, a, b) == a - b);
                assert(!check_fires(l.check, a, b, a - b));
                assert(lowered_arith_result(l, w, a, b) == Some(a - b));
                assert(move_arith(op, w, a, b) == Some(a - b));
            } else {
                lemma_mod_multiples_vanish(-1, a - b + m, m);
                lemma_small_mod((a - b + m) as nat, m as nat);
                assert(llvm_binary(l.opcode, w, a, b) == a - b + m);
                assert(check_fires(l.check, a, b, a - b + m));
                assert(lowered_arith_result(l, w, a, b) == None::<int>);
                assert(move_arith(op, w, a, b) == None::<int>);
            }
        },
        Operation::Mul => {
            assert(0 <= a * b) by (nonlinear_arith)
                requires
                    0 <= a,
                    0 <= b,
            ;
            lemma_small_mod((a * b) as nat, m as nat);
        },
        Operation::Or | Operation::And => {
            assert(pow2(1) == 2) by {
                vstd::arithmetic::power2::lemma2_to64();
            }
            bool_bits(a, b);
        },
        Operation::Shl | Operation::Shr => {
            assert(w > 255 ==> b < w);
        },
        _ => {},
    }
}

/// The arithmetic and logical operations compute what Move prescribes.
/// For every arithmetic or logical call that the translator lowers, on
/// operands of the right widths, the emitted instructions abort exactly
/// where Move aborts and otherwise store Move's result, except on the
/// inputs of `arith_exception` (unchecked multiplication overflow and
/// unchecked remainder by zero).
pub proof fn arith_lowering_agrees_with_move(
    dst: Seq<usize>,
    op: Operation,
    src: Vec<usize>,
    locals: Seq<MoveType>,
    a: int,
    b: int,
)
    requires
        is_arith_operation(op),
        call_lowering_of(dst, op, src, locals) is Ok,
        has_bitwidth(locals[src[0] as int]),
        op != Operation::Shl && op != Operation::Shr ==> locals[src[1] as int] == locals[src[0]
            as int],
        op == Operation::Or || op == Operation::And ==> is_bool_type(locals[src[0] as int]),
        op != Operation::Or && op != Operation::And ==> is_number_type(locals[src[0] as int]),
        0 <= a < pow2(bitwidth(locals[src[0] as int])),
        0 <= b < pow2(bitwidth(locals[src[1] as int])),
        !arith_exception(op, bitwidth(locals[src[0] as int]), a, b),
    ensures
        call_lowering_of(dst, op, src, locals) matches Ok(CallLowering::Arith(l))
            && lowered_arith_result(l, bitwidth(locals[src[0] as int]), a, b) == move_arith(
            op,
            bitwidth(locals[src[0] as int]),
            a,
            b,
        ),
{
    let w = bitwidth(locals[src[0] as int]);
    assert(compare_table(op) is None);
    assert(arith_table(op) is Some);
    let l = match call_lowering_of(dst, op, src, locals) {
        Ok(CallLowering::Arith(l)) => l,
        _ => arbitrary(),
    };
    assert(call_lowering_of(dst, op, src, locals) matches Ok(CallLowering::Arith(_)));
    if op == Operation::Shl || op == Operation::Shr {
        assert(bitwidth(locals[src[1] as int]) == 8);
        vstd::arithmetic::power2::lemma2_to64();
    }
    arith_case(op, l, w, a, b);
}

/// The truth value that a Move comparison yields on unsigned operands.
pub open spec fn move_compare(op: Operation, a: int, b: int) -> bool {
    match op {
        Operation::Lt => a < b,
        Operation::Gt => a > b,
        Operation::Le => a <= b,
        Operation::Ge => a >= b,
        Operation::Eq => a == b,
        Operation::Neq => a != b,
        _ => false,
    }
}

/// Comparisons compute what Move prescribes: for every comparison call
/// that the translator lowers, the emitted predicate holds of the operands
/// exactly where the Move comparison does.
pub proof fn compare_lowering_agrees_with_move(
    dst: Seq<usize>,
    op: Operation,
    src: Vec<usize>,
    locals: Seq<MoveType>,
    a: int,
    b: int,
)
    requires
        call_lowering_of(dst, op, src, locals) matches Ok(CallLowering::Compare(_)),
    ensures
        call_lowering_of(dst, op, src, locals) matches Ok(CallLowering::Compare(c)) && predicate_holds(
            c.pred,
            a,
            b,
        ) == move_compare(op, a, b),
{
}

/// Logical negation computes what Move prescribes: the emitted "xor with
/// 1" maps `false` (0) to `true` (1) and `true` to `false`.
pub proof fn not_lowering_agrees_with_move(
    dst: Seq<usize>,
    src: Vec<usize>,
    locals: Seq<MoveType>,
    a: int,
)
    requires
        call_lowering_of(dst, Operation::Not, src, locals) is Ok,
        0 <= a <= 1,
    ensures
        call_lowering_of(dst, Operation::Not, src, locals) matches Ok(CallLowering::Not { .. }),
        bits_xor(a as nat, 1) == 1 - a,
{
    bool_bits(a, 0);
}

/// What the instructions emitted for a cast produce on the value `v`:
/// `None` where the range check aborts, else the converted value.
pub open spec fn lowered_cast_result(c: CastLowering, v: int) -> Option<int> {
    match c.max_value {
        Some(max) if v > max => None,
        _ => Some(
            match c.conversion {
                Conversion::ZeroExtend => v,
                Conversion::Truncate => v % (pow2(c.dst_width as nat) as int),
            },
        ),
    }
}

/// The result of a Move cast to an unsigned integer of `dw` bits: the same
/// number, or an abort where it does not fit.
pub open spec fn move_cast(dw: nat, v: int) -> Option<int> {
    if v < pow2(dw) {
        Some(v)
    } else {
        None
    }
}

/// Casts compute what Move prescribes: for every cast that the translator
/// lowers and every value of the source type, the emitted code aborts
/// exactly where the value does not fit the target type and otherwise
/// stores the same number.
pub proof fn cast_lowering_agrees_with_move(
    dst: Seq<usize>,
    op: Operation,
    src: Vec<usize>,
    locals: Seq<MoveType>,
    v: int,
)
    requires
        call_lowering_of(dst, op, src, locals) matches Ok(CallLowering::Cast(c)) && 0 <= v
            < pow2(c.src_width as nat),
    ensures
        call_lowering_of(dst, op, src, locals) matches Ok(CallLowering::Cast(c))
            && lowered_cast_result(c, v) == move_cast(c.dst_width as nat, v),
{
    let c = match call_lowering_of(dst, op, src, locals) {
        Ok(CallLowering::Cast(c)) => c,
        _ => arbitrary(),
    };
    let sw = c.src_width as nat;
    let dw = c.dst_width as nat;
    lemma_pow2_pos(dw);
    if sw < dw {
        lemma_pow2_strictly_increases(sw, dw);
    } else if sw == dw {
        lemma_small_mod(v as nat, pow2(dw));
    } else {
        lemma_pow2_strictly_increases(dw, sw);
        assert(dw <= 128);
        pow2_128_is_u128_bound();
        if dw < 128 {
            lemma_pow2_strictly_increases(dw, 128);
        }
        assert(c.max_value == Some((pow2(dw) - 1) as u128));
        if v < pow2(dw) {
            lemma_small_mod(v as nat, pow2(dw));
        }
    }
}

/// The operand types of an arithmetic or logical call fit its operation:
/// sized, both of one type (but for a shift's amount), booleans for the
/// logical operations and numbers for the others.
pub open spec fn arith_operands_fit(op: Operation, src: Seq<usize>, locals: Seq<MoveType>) -> bool {
    &&& has_bitwidth(locals[src[0] as int])
    &&& op != Operation::Shl && op != Operation::Shr ==> locals[src[1] as int] == locals[src[0]
        as int]
    &&& op == Operation::Or || op == Operation::And ==> is_bool_type(locals[src[0] as int])
    &&& op != Operation::Or && op != Operation::And ==> is_number_type(locals[src[0] as int])
}

/// A lowered call keeps Move's meaning. An arithmetic or logical call on
/// operands whose types fit it aborts exactly where Move aborts and
/// otherwise stores Move's result, for all operand values but those of
/// `arith_exception`; a comparison's predicate holds exactly where Move's
/// comparison does; a negation maps 0 to 1 and 1 to 0; a cast aborts
/// exactly where the value does not fit the target type and otherwise
/// keeps the number.
pub open spec fn lowering_keeps_move_meaning(
    r: CallLowering,
    op: Operation,
    src: Seq<usize>,
    locals: Seq<MoveType>,
) -> bool {
    match r {
        CallLowering::Arith(l) => arith_operands_fit(op, src, locals) ==> {
            let w = bitwidth(locals[src[0] as int]);
            forall|a: int, b: int|
                0 <= a < pow2(w) && 0 <= b < pow2(bitwidth(locals[src[1] as int]))
                    && !arith_exception(op, w, a, b) ==> #[trigger] lowered_arith_result(l, w, a, b)
                    == move_arith(op, w, a, b)
        },
        CallLowering::Compare(c) => forall|a: int, b: int|
            #[trigger] predicate_holds(c.pred, a, b) == move_compare(op, a, b),
        CallLowering::Not { .. } => forall|a: int|
            0 <= a <= 1 ==> #[trigger] bits_xor(a as nat, 1) == 1 - a,
        CallLowering::Cast(c) => forall|v: int|
            0 <= v < pow2(c.src_width as nat) ==> #[trigger] lowered_cast_result(c, v) == move_cast(
                c.dst_width as nat,
                v,
            ),
        _ => true,
    }
}

/// Every call that the translator lowers keeps Move's meaning (see
/// `lowering_keeps_move_meaning`).
pub proof fn call_lowering_keeps_move_meaning(
    dst: Seq<usize>,
    op: Operation,
    src: Vec<usize>,
    locals: Seq<MoveType>,
)
    requires
        call_lowering_of(dst, op, src, locals) is Ok,
    ensures
        call_lowering_of(dst, op, src, locals) matches Ok(r) && lowering_keeps_move_meaning(
            r,
            op,
            src@,
            locals,
        ),
{
    match call_lowering_of(dst, op, src, locals) {
        Ok(CallLowering::Arith(l)) => {
            if arith_operands_fit(op, src@, locals) {
                let w = bitwidth(locals[src[0] as int]);
                assert(is_arith_operation(op));
                assert forall|a: int, b: int|
                    0 <= a < pow2(w) && 0 <= b < pow2(bitwidth(locals[src[1] as int]))
                        && !arith_exception(op, w, a, b) implies #[trigger] lowered_arith_result(
                    l,
                    w,
                    a,
                    b,
                ) == move_arith(op, w, a, b) by {
                    arith_lowering_agrees_with_move(dst, op, src, locals, a, b);
                }
            }
        },
        Ok(CallLowering::Compare(c)) => {
            assert forall|a: int, b: int| #[trigger] predicate_holds(c.pred, a, b) == move_compare(op, a, b) by {
                compare_lowering_agrees_with_move(dst, op, src, locals, a, b);
            }
        },
        Ok(CallLowering::Not { .. }) => {
            assert forall|a: int| 0 <= a <= 1 implies #[trigger] bits_xor(a as nat, 1) == 1 - a by {
                bool_bits(a, 0);
            }
        },
        Ok(CallLowering::Cast(c)) => {
            assert forall|v: int| 0 <= v < pow2(c.src_width as nat) implies #[trigger] lowered_cast_result(
                c,
                v,
            ) == move_cast(c.dst_width as nat, v) by {
                cast_lowering_agrees_with_move(dst, op, src, locals, v);
            }
        },
        _ => {},
    }
}

} // verus!
