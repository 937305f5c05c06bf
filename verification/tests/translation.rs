use move_mv_llvm_compiler::attributes::{AttributeKind, AttributePlace};
use move_mv_llvm_compiler::function::{
    lower_constant, lower_instruction, lower_locals, AssignKind, Bytecode, Constant,
    ConstantLowering, InstrLowering, RtCall, U256,
};
use move_mv_llvm_compiler::lowering::{CallLowering, LoweringError, Operation};
use move_mv_llvm_compiler::module::{
    block_labels, check_failure_lowering, foreign_callees, function_signature,
    runtime_call_argument, runtime_function, AbortArgument,
};
use move_mv_llvm_compiler::target::Target;
use move_mv_llvm_compiler::types::{get_bitwidth, is_bool, is_number, llvm_type, LlvmType, MoveType, PrimitiveType};

fn prim(p: PrimitiveType) -> MoveType {
    MoveType::Primitive(p)
}

#[test]
fn solana_target_description() {
    let t = Target::Solana;
    assert_eq!(t.triple(), "sbf-solana-solana");
    assert_eq!(t.llvm_cpu(), "generic");
    assert_eq!(t.llvm_features(), "+solana");
}

#[test]
fn attribute_places() {
    assert_eq!(AttributePlace::ReturnValue.as_uint(), 0);
    assert_eq!(AttributePlace::Argument(0).as_uint(), 1);
    assert_eq!(AttributePlace::Argument(41).as_uint(), 42);
    assert_eq!(AttributePlace::Function.as_uint(), u32::MAX);
}

#[test]
fn attribute_kind_codes() {
    assert_eq!(AttributeKind::AlwaysInline.code(), 0);
    assert_eq!(AttributeKind::NoReturn.code(), 11);
    assert_eq!(AttributeKind::NoUnwind.code(), 12);
    assert_eq!(AttributeKind::SanitizeMemTag.code(), 34);
}

#[test]
fn llvm_types_of_move_types() {
    assert_eq!(llvm_type(&prim(PrimitiveType::Bool)), LlvmType::Int(1));
    assert_eq!(llvm_type(&prim(PrimitiveType::U16)), LlvmType::Int(16));
    assert_eq!(llvm_type(&prim(PrimitiveType::U256)), LlvmType::Int(256));
    let rr = MoveType::Reference(false, Box::new(MoveType::Reference(true, Box::new(prim(PrimitiveType::U64)))));
    assert_eq!(llvm_type(&rr), LlvmType::Ptr(Box::new(LlvmType::Ptr(Box::new(LlvmType::Int(64))))));
}

#[test]
fn bit_widths_match_llvm_types() {
    for p in [
        PrimitiveType::Bool,
        PrimitiveType::U8,
        PrimitiveType::U16,
        PrimitiveType::U32,
        PrimitiveType::U64,
        PrimitiveType::U128,
        PrimitiveType::U256,
    ] {
        let t = prim(p);
        assert_eq!(llvm_type(&t), LlvmType::Int(get_bitwidth(&t) as u32));
    }
    assert_eq!(get_bitwidth(&prim(PrimitiveType::U128)), 128);
}

#[test]
fn type_classes() {
    assert!(is_bool(&prim(PrimitiveType::Bool)));
    assert!(!is_bool(&prim(PrimitiveType::U8)));
    assert!(is_number(&prim(PrimitiveType::U8)));
    assert!(is_number(&prim(PrimitiveType::Num)));
    assert!(!is_number(&prim(PrimitiveType::Bool)));
    assert!(!is_number(&MoveType::Other));
}

#[test]
fn constants_keep_their_value_and_width() {
    assert_eq!(lower_constant(&Constant::Bool(true)), Ok(ConstantLowering::Int { width: 1, value: 1 }));
    assert_eq!(lower_constant(&Constant::Bool(false)), Ok(ConstantLowering::Int { width: 1, value: 0 }));
    assert_eq!(lower_constant(&Constant::U16(700)), Ok(ConstantLowering::Int { width: 16, value: 700 }));
    assert_eq!(
        lower_constant(&Constant::U128(u128::MAX)),
        Ok(ConstantLowering::Int { width: 128, value: u128::MAX })
    );
    let big = U256 { high: 1, low: 2 };
    assert_eq!(lower_constant(&Constant::U256(big)), Ok(ConstantLowering::Int256(big)));
    assert_eq!(lower_constant(&Constant::Other), Err(LoweringError::Unimplemented));
}

#[test]
fn assignments_by_kind_and_type() {
    let locals = vec![prim(PrimitiveType::U16), prim(PrimitiveType::U16), prim(PrimitiveType::U64), prim(PrimitiveType::U64)];
    assert_eq!(
        lower_instruction(Bytecode::Assign(1, 0, AssignKind::Move), &locals),
        Ok(InstrLowering::Assign { ty: LlvmType::Int(16), src: 0, dst: 1 })
    );
    // Copying and storing a u16 is not supported yet.
    assert_eq!(
        lower_instruction(Bytecode::Assign(1, 0, AssignKind::Copy), &locals),
        Err(LoweringError::Unimplemented)
    );
    assert_eq!(
        lower_instruction(Bytecode::Assign(1, 0, AssignKind::Store), &locals),
        Err(LoweringError::Unimplemented)
    );
    assert_eq!(
        lower_instruction(Bytecode::Assign(3, 2, AssignKind::Copy), &locals),
        Ok(InstrLowering::Assign { ty: LlvmType::Int(64), src: 2, dst: 3 })
    );
    assert_eq!(
        lower_instruction(Bytecode::Assign(9, 2, AssignKind::Copy), &locals),
        Err(LoweringError::Malformed)
    );
}

#[test]
fn control_flow_instructions() {
    let locals = vec![prim(PrimitiveType::Bool), prim(PrimitiveType::U64)];
    assert_eq!(lower_instruction(Bytecode::Ret(vec![]), &locals), Ok(InstrLowering::ReturnVoid));
    assert_eq!(
        lower_instruction(Bytecode::Ret(vec![1]), &locals),
        Ok(InstrLowering::Return { ty: LlvmType::Int(64), src: 1 })
    );
    assert_eq!(lower_instruction(Bytecode::Ret(vec![0, 1]), &locals), Err(LoweringError::Unimplemented));
    assert_eq!(
        lower_instruction(Bytecode::Branch(4, 5, 0), &locals),
        Ok(InstrLowering::CondBranch { ty: LlvmType::Int(1), cond: 0, then_label: 4, else_label: 5 })
    );
    assert_eq!(lower_instruction(Bytecode::Jump(7), &locals), Ok(InstrLowering::Jump { label: 7 }));
    assert_eq!(lower_instruction(Bytecode::Label(7), &locals), Ok(InstrLowering::Label { label: 7 }));
    assert_eq!(
        lower_instruction(Bytecode::Abort(1), &locals),
        Ok(InstrLowering::RuntimeCall(RtCall::Abort(1)))
    );
    assert_eq!(lower_instruction(Bytecode::Abort(2), &locals), Err(LoweringError::Malformed));
    assert_eq!(lower_instruction(Bytecode::Other, &locals), Err(LoweringError::Unimplemented));
}

#[test]
fn loads_and_calls() {
    let locals = vec![prim(PrimitiveType::U8), prim(PrimitiveType::U8), prim(PrimitiveType::U8)];
    assert_eq!(
        lower_instruction(Bytecode::Load(2, Constant::U8(9)), &locals),
        Ok(InstrLowering::LoadConstant { value: ConstantLowering::Int { width: 8, value: 9 }, dst: 2 })
    );
    match lower_instruction(Bytecode::Call(vec![2], Operation::Add, vec![0, 1], None), &locals) {
        Ok(InstrLowering::Call(CallLowering::Arith(a))) => assert_eq!(a.dst, 2),
        other => panic!("unexpected lowering {:?}", other),
    }
    assert_eq!(
        lower_instruction(Bytecode::Call(vec![2], Operation::Add, vec![0, 1], Some((3, 0))), &locals),
        Err(LoweringError::Unimplemented)
    );
    // A function call passes its argument locals in order.
    assert_eq!(
        lower_instruction(Bytecode::Call(vec![0], Operation::Function(1, 2), vec![2, 1], None), &locals),
        Ok(InstrLowering::Call(CallLowering::FunctionCall { module: 1, function: 2, args: vec![2, 1], result: Some(0) }))
    );
    assert_eq!(
        lower_instruction(Bytecode::Call(vec![], Operation::Function(1, 2), vec![3], None), &locals),
        Err(LoweringError::Malformed)
    );
}

#[test]
fn locals_must_have_llvm_types() {
    let ok = vec![prim(PrimitiveType::U8), MoveType::Reference(false, Box::new(prim(PrimitiveType::Bool)))];
    assert_eq!(
        lower_locals(&ok),
        Ok(vec![LlvmType::Int(8), LlvmType::Ptr(Box::new(LlvmType::Int(1)))])
    );
    let bad = vec![prim(PrimitiveType::U8), prim(PrimitiveType::Address)];
    assert_eq!(lower_locals(&bad), Err(LoweringError::Unimplemented));
}

#[test]
fn signatures() {
    let sig = function_signature(&vec![prim(PrimitiveType::U64)], &vec![prim(PrimitiveType::U8), prim(PrimitiveType::Bool)]).unwrap();
    assert_eq!(sig.return_type, LlvmType::Int(64));
    assert_eq!(sig.params, vec![LlvmType::Int(8), LlvmType::Int(1)]);
    let void = function_signature(&vec![], &vec![]).unwrap();
    assert_eq!(void.return_type, LlvmType::Void);
    assert!(void.params.is_empty());
    assert!(function_signature(&vec![prim(PrimitiveType::U8), prim(PrimitiveType::U8)], &vec![]).is_err());
    assert!(function_signature(&vec![], &vec![MoveType::Other]).is_err());
}

#[test]
fn foreign_callees_are_sorted_and_distinct() {
    let called = vec![vec![(2, 5), (0, 1), (1, 9)], vec![(1, 3), (2, 5), (0, 7)], vec![]];
    assert_eq!(foreign_callees(0, &called), vec![(1, 3), (1, 9), (2, 5)]);
    assert_eq!(foreign_callees(1, &called), vec![(0, 1), (0, 7), (2, 5)]);
    assert!(foreign_callees(3, &vec![]).is_empty());
}

#[test]
fn labels_in_order() {
    let code = vec![Bytecode::Label(3), Bytecode::Jump(1), Bytecode::Label(1), Bytecode::Ret(vec![]), Bytecode::Label(0)];
    assert_eq!(block_labels(&code), vec![3, 1, 0]);
}

#[test]
fn runtime_abort_function() {
    let f = runtime_function(&RtCall::Abort(4));
    assert_eq!(f.name, "move_rt_abort");
    assert_eq!(f.return_type, LlvmType::Void);
    assert_eq!(f.param_types, vec![LlvmType::Int(64)]);
    assert_eq!(f.attributes, vec![AttributeKind::NoReturn]);
    assert_eq!(runtime_call_argument(&RtCall::Abort(4)), AbortArgument::Local(4));
}

#[test]
fn failed_checks_abort_with_the_arithmetic_error_code() {
    let c = check_failure_lowering();
    assert_eq!(c.then_block, "then_bb");
    assert_eq!(c.join_block, "join_bb");
    assert_eq!(c.abort, AbortArgument::Code(4017));
}
