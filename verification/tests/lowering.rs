use move_mv_llvm_compiler::lowering::{
    cast_max_value, check_comparison, lower_call, ArithLowering, BinaryOpcode, CallLowering,
    CheckComparison, CheckEmitter, CheckOperand, Conversion, DynamicCheck, EmitterFnKind,
    IntPredicate, LoweringError, Operation,
};
use move_mv_llvm_compiler::types::{LlvmType, MoveType, PrimitiveType};

fn prim(p: PrimitiveType) -> MoveType {
    MoveType::Primitive(p)
}

/// What a check decides on concrete operands, as the emitted `icmp` does.
fn fires(check: &Option<CheckComparison>, a: u128, b: u128, d: u128) -> bool {
    let value = |o: CheckOperand| match o {
        CheckOperand::Src0 => a,
        CheckOperand::Src1 => b,
        CheckOperand::Dst => d,
        CheckOperand::Constant(c) => c,
    };
    match check {
        None => false,
        Some(c) => {
            let (x, y) = (value(c.lhs), value(c.rhs));
            match c.pred {
                IntPredicate::EQ => x == y,
                IntPredicate::NE => x != y,
                IntPredicate::UGT => x > y,
                IntPredicate::UGE => x >= y,
                IntPredicate::ULT => x < y,
                IntPredicate::ULE => x <= y,
            }
        }
    }
}

fn arith(op: Operation, locals: &Vec<MoveType>) -> ArithLowering {
    match lower_call(&[2], &op, vec![0, 1], locals) {
        Ok(CallLowering::Arith(a)) => a,
        other => panic!("unexpected lowering {:?}", other),
    }
}

#[test]
fn add_is_checked_after_the_operation() {
    let locals = vec![prim(PrimitiveType::U8), prim(PrimitiveType::U8), prim(PrimitiveType::U8)];
    let a = arith(Operation::Add, &locals);
    assert_eq!(a.name, "add");
    assert_eq!(a.opcode, BinaryOpcode::Add);
    assert_eq!(
        a.emitter,
        CheckEmitter { check: DynamicCheck::AddOverflow, kind: EmitterFnKind::PostCheck }
    );
    assert_eq!(
        a.check,
        Some(CheckComparison { pred: IntPredicate::ULT, lhs: CheckOperand::Dst, rhs: CheckOperand::Src0 })
    );
    assert_eq!((a.src0, a.src1, a.dst), (0, 1, 2));
    assert_eq!(a.widen_src1_to, None);
}

#[test]
fn add_check_fires_exactly_on_overflow() {
    let locals = vec![prim(PrimitiveType::U8), prim(PrimitiveType::U8), prim(PrimitiveType::U8)];
    let a = arith(Operation::Add, &locals);
    // 200 + 100 wraps to 44 in 8 bits: aborts, as Move does.
    assert!(fires(&a.check, 200, 100, (200u8.wrapping_add(100)) as u128));
    // 100 + 100 = 200 fits: no abort.
    assert!(!fires(&a.check, 100, 100, 200));
    // 255 + 0 fits.
    assert!(!fires(&a.check, 255, 0, 255));
}

#[test]
fn sub_check_fires_exactly_on_underflow() {
    let locals = vec![prim(PrimitiveType::U64), prim(PrimitiveType::U64), prim(PrimitiveType::U64)];
    let s = arith(Operation::Sub, &locals);
    assert_eq!(s.opcode, BinaryOpcode::Sub);
    assert_eq!(s.emitter.kind, EmitterFnKind::PostCheck);
    assert!(fires(&s.check, 3, 5, 3u64.wrapping_sub(5) as u128));
    assert!(!fires(&s.check, 5, 3, 2));
    assert!(!fires(&s.check, 5, 5, 0));
}

#[test]
fn div_is_checked_before_the_operation() {
    let locals = vec![prim(PrimitiveType::U32), prim(PrimitiveType::U32), prim(PrimitiveType::U32)];
    let d = arith(Operation::Div, &locals);
    assert_eq!(d.opcode, BinaryOpcode::UDiv);
    assert_eq!(d.emitter.kind, EmitterFnKind::PreCheck);
    assert!(fires(&d.check, 7, 0, 0));
    assert!(!fires(&d.check, 7, 2, 0));
}

#[test]
fn mul_mod_and_bitwise_have_no_check() {
    let locals = vec![prim(PrimitiveType::U16), prim(PrimitiveType::U16), prim(PrimitiveType::U16)];
    for (op, opcode, name) in [
        (Operation::Mul, BinaryOpcode::Mul, "mul"),
        (Operation::Mod, BinaryOpcode::URem, "mod"),
        (Operation::BitOr, BinaryOpcode::Or, "or"),
        (Operation::BitAnd, BinaryOpcode::And, "and"),
        (Operation::Xor, BinaryOpcode::Xor, "xor"),
    ] {
        let a = arith(op, &locals);
        assert_eq!(a.opcode, opcode);
        assert_eq!(a.name, name);
        assert_eq!(a.check, None);
        assert_eq!(a.emitter.check, DynamicCheck::Nothing);
    }
}

#[test]
fn logical_or_and_use_bitwise_instructions() {
    let locals = vec![prim(PrimitiveType::Bool), prim(PrimitiveType::Bool), prim(PrimitiveType::Bool)];
    assert_eq!(arith(Operation::Or, &locals).opcode, BinaryOpcode::Or);
    assert_eq!(arith(Operation::And, &locals).opcode, BinaryOpcode::And);
}

#[test]
fn shift_amount_is_widened_and_checked_against_value_width() {
    let locals = vec![prim(PrimitiveType::U64), prim(PrimitiveType::U8), prim(PrimitiveType::U64)];
    let s = arith(Operation::Shl, &locals);
    assert_eq!(s.opcode, BinaryOpcode::Shl);
    assert_eq!(s.emitter.kind, EmitterFnKind::PreCheck);
    assert_eq!(s.widen_src1_to, Some(LlvmType::Int(64)));
    assert_eq!(
        s.check,
        Some(CheckComparison { pred: IntPredicate::UGE, lhs: CheckOperand::Src1, rhs: CheckOperand::Constant(64) })
    );
    // A u64 may be shifted by 10 (giving 1024 for 1 << 10), not by 64.
    assert!(!fires(&s.check, 1, 10, 0));
    assert!(!fires(&s.check, 1, 63, 0));
    assert!(fires(&s.check, 1, 64, 0));
    let r = arith(Operation::Shr, &vec![prim(PrimitiveType::U8), prim(PrimitiveType::U8), prim(PrimitiveType::U8)]);
    assert_eq!(r.opcode, BinaryOpcode::LShr);
    assert_eq!(r.widen_src1_to, None);
    assert!(fires(&r.check, 1, 8, 0));
    assert!(!fires(&r.check, 1, 7, 0));
    // No u8 amount reaches the width of a u256: the shift is not checked.
    let big = arith(Operation::Shl, &vec![prim(PrimitiveType::U256), prim(PrimitiveType::U8), prim(PrimitiveType::U256)]);
    assert_eq!(big.check, None);
    assert_eq!(big.widen_src1_to, Some(LlvmType::Int(256)));
}

#[test]
fn shift_amount_of_other_width_is_malformed() {
    let locals = vec![prim(PrimitiveType::U64), prim(PrimitiveType::U64), prim(PrimitiveType::U64)];
    assert_eq!(lower_call(&[2], &Operation::Shl, vec![0, 1], &locals), Err(LoweringError::Malformed));
}

#[test]
fn comparisons_use_unsigned_predicates() {
    let locals = vec![prim(PrimitiveType::U8), prim(PrimitiveType::U8), prim(PrimitiveType::Bool)];
    for (op, pred, name) in [
        (Operation::Lt, IntPredicate::ULT, "lt"),
        (Operation::Gt, IntPredicate::UGT, "gt"),
        (Operation::Le, IntPredicate::ULE, "le"),
        (Operation::Ge, IntPredicate::UGE, "ge"),
        (Operation::Eq, IntPredicate::EQ, "eq"),
        (Operation::Neq, IntPredicate::NE, "ne"),
    ] {
        match lower_call(&[2], &op, vec![0, 1], &locals) {
            Ok(CallLowering::Compare(c)) => {
                assert_eq!(c.pred, pred);
                assert_eq!(c.name, name);
                assert_eq!((c.src0, c.src1, c.dst), (0, 1, 2));
            }
            other => panic!("unexpected lowering {:?}", other),
        }
    }
}

#[test]
fn wrong_arity_is_malformed() {
    let locals = vec![prim(PrimitiveType::U8), prim(PrimitiveType::U8)];
    assert_eq!(lower_call(&[1], &Operation::Add, vec![0], &locals), Err(LoweringError::Malformed));
    assert_eq!(lower_call(&[5], &Operation::Add, vec![0, 1], &locals), Err(LoweringError::Malformed));
    assert_eq!(lower_call(&[], &Operation::Destroy, vec![0, 1], &locals), Err(LoweringError::Malformed));
}

#[test]
fn unsupported_operations_are_unimplemented() {
    let locals = vec![prim(PrimitiveType::U8), MoveType::Reference(false, Box::new(prim(PrimitiveType::U8)))];
    assert_eq!(lower_call(&[], &Operation::Other, vec![], &locals), Err(LoweringError::Unimplemented));
    assert_eq!(lower_call(&[], &Operation::Destroy, vec![1], &locals), Err(LoweringError::Unimplemented));
    assert_eq!(lower_call(&[], &Operation::Destroy, vec![0], &locals), Ok(CallLowering::Nop));
    assert_eq!(
        lower_call(&[0, 1], &Operation::Function(3, 4), vec![], &locals),
        Err(LoweringError::Unimplemented)
    );
}

#[test]
fn function_calls_and_references() {
    let r8 = MoveType::Reference(true, Box::new(prim(PrimitiveType::U8)));
    let locals = vec![prim(PrimitiveType::U8), r8];
    assert_eq!(
        lower_call(&[0], &Operation::Function(3, 4), vec![0, 1], &locals),
        Ok(CallLowering::FunctionCall { module: 3, function: 4, args: vec![0, 1], result: Some(0) })
    );
    assert_eq!(
        lower_call(&[], &Operation::Function(3, 4), vec![0], &locals),
        Ok(CallLowering::FunctionCall { module: 3, function: 4, args: vec![0], result: None })
    );
    assert_eq!(
        lower_call(&[1], &Operation::BorrowLoc, vec![0], &locals),
        Ok(CallLowering::BorrowLocal { src: 0, dst: 1 })
    );
    assert_eq!(
        lower_call(&[0], &Operation::ReadRef, vec![1], &locals),
        Ok(CallLowering::ReadRef { ty: LlvmType::Int(8), src: 1, dst: 0 })
    );
    assert_eq!(
        lower_call(&[], &Operation::WriteRef, vec![1, 0], &locals),
        Ok(CallLowering::WriteRef { ty: LlvmType::Int(8), src: 0, dst: 1 })
    );
    assert_eq!(
        lower_call(&[1], &Operation::FreezeRef, vec![1], &locals),
        Ok(CallLowering::FreezeRef { ty: LlvmType::Ptr(Box::new(LlvmType::Int(8))), src: 1, dst: 1 })
    );
}

#[test]
fn not_requires_booleans() {
    let locals = vec![prim(PrimitiveType::Bool), prim(PrimitiveType::Bool), prim(PrimitiveType::U8)];
    assert_eq!(
        lower_call(&[1], &Operation::Not, vec![0], &locals),
        Ok(CallLowering::Not { ty: LlvmType::Int(1), src: 0, dst: 1 })
    );
    assert_eq!(lower_call(&[2], &Operation::Not, vec![0], &locals), Err(LoweringError::Malformed));
}

#[test]
fn narrowing_cast_is_range_checked() {
    let locals = vec![prim(PrimitiveType::U64), prim(PrimitiveType::U8)];
    match lower_call(&[1], &Operation::CastU8, vec![0], &locals) {
        Ok(CallLowering::Cast(c)) => {
            assert_eq!((c.src_width, c.dst_width), (64, 8));
            assert_eq!(c.max_value, Some(255));
            assert_eq!(c.conversion, Conversion::Truncate);
            assert_eq!(c.src_type, LlvmType::Int(64));
            assert_eq!(c.dst_type, LlvmType::Int(8));
        }
        other => panic!("unexpected lowering {:?}", other),
    }
}

#[test]
fn widening_cast_is_not_checked() {
    let locals = vec![prim(PrimitiveType::U8), prim(PrimitiveType::U128)];
    match lower_call(&[1], &Operation::CastU128, vec![0], &locals) {
        Ok(CallLowering::Cast(c)) => {
            assert_eq!(c.max_value, None);
            assert_eq!(c.conversion, Conversion::ZeroExtend);
        }
        other => panic!("unexpected lowering {:?}", other),
    }
    let same = vec![prim(PrimitiveType::U32), prim(PrimitiveType::U32)];
    match lower_call(&[1], &Operation::CastU32, vec![0], &same) {
        Ok(CallLowering::Cast(c)) => {
            assert_eq!(c.max_value, None);
            assert_eq!(c.conversion, Conversion::Truncate);
        }
        other => panic!("unexpected lowering {:?}", other),
    }
}

#[test]
fn casting_a_boolean_is_malformed() {
    let locals = vec![prim(PrimitiveType::Bool), prim(PrimitiveType::U8)];
    assert_eq!(lower_call(&[1], &Operation::CastU8, vec![0], &locals), Err(LoweringError::Malformed));
}

#[test]
fn cast_bounds() {
    assert_eq!(cast_max_value(0), 0);
    assert_eq!(cast_max_value(8), 255);
    assert_eq!(cast_max_value(64), u64::MAX as u128);
    assert_eq!(cast_max_value(128), u128::MAX);
}

#[test]
fn check_comparisons() {
    assert_eq!(check_comparison(DynamicCheck::Nothing, 8), None);
    assert_eq!(
        check_comparison(DynamicCheck::DivisionByZero, 8),
        Some(CheckComparison { pred: IntPredicate::EQ, lhs: CheckOperand::Src1, rhs: CheckOperand::Constant(0) })
    );
    assert_eq!(
        check_comparison(DynamicCheck::SubUnderflow, 8),
        Some(CheckComparison { pred: IntPredicate::UGT, lhs: CheckOperand::Dst, rhs: CheckOperand::Src0 })
    );
}
