use vstd::prelude::*;

use crate::types::{
    bitwidth, get_bitwidth, has_bitwidth, has_llvm_type, is_bool, is_bool_type, is_number,
    is_number_type, llvm_type, llvm_type_of, LlvmType, MoveType, PrimitiveType,
};
use crate::semantics::{call_lowering_keeps_move_meaning, lowering_keeps_move_meaning};
use vstd::arithmetic::power2::*;

verus! {

/// The LLVM integer binary instructions that the translator emits.
#[derive(Copy, Clone, Debug, PartialEq, Eq, Structural)]
pub enum BinaryOpcode {
    Add,
    Sub,
    Mul,
    UDiv,
    URem,
    Or,
    And,
    Xor,
    Shl,
    LShr,
}

/// The LLVM integer comparison predicates that the translator emits (all
/// unsigned or equality).
#[derive(Copy, Clone, Debug, PartialEq, Eq, Structural)]
pub enum IntPredicate {
    EQ,
    NE,
    UGT,
    UGE,
    ULT,
    ULE,
}

/// Whether a dynamic check is emitted before the operation (on its
/// operands) or after it (on its result).
#[derive(Copy, Clone, Debug, PartialEq, Eq, Structural)]
pub enum EmitterFnKind {
    PreCheck,
    PostCheck,
}

/// The dynamic checks that guard an arithmetic instruction; each aborts
/// with an arithmetic error when its condition is met.
#[derive(Copy, Clone, Debug, PartialEq, Eq, Structural)]
pub enum DynamicCheck {
    /// No check.
    Nothing,
    /// Abort when the shift amount is not below the width of the shifted value.
    ShiftAmount,
    /// Abort when the wrapped sum is below the first operand.
    AddOverflow,
    /// Abort when the wrapped difference is above the first operand.
    SubUnderflow,
    /// Abort when the divisor is zero.
    DivisionByZero,
}

/// A check together with the place where it is emitted.
#[derive(Copy, Clone, Debug, PartialEq, Eq, Structural)]
pub struct CheckEmitter {
    pub check: DynamicCheck,
    pub kind: EmitterFnKind,
}

/// A value that a check compares: one of the two operands, the result, or
/// an integer constant of the operand's type.
#[derive(Copy, Clone, Debug, PartialEq, Eq, Structural)]
pub enum CheckOperand {
    Src0,
    Src1,
    Dst,
    Constant(u128),
}

/// The comparison that a check emits; the program aborts when it holds.
#[derive(Copy, Clone, Debug, PartialEq, Eq, Structural)]
pub struct CheckComparison {
    pub pred: IntPredicate,
    pub lhs: CheckOperand,
    pub rhs: CheckOperand,
}

/// The operations of stackless bytecode calls, as far as the translator
/// reads them. A call of a function names its module and its function by
/// their indices in the model.
#[derive(Copy, Clone, Debug, PartialEq, Eq, Structural)]
pub enum Operation {
    Function(usize, usize),
    BorrowLoc,
    Destroy,
    ReadRef,
    WriteRef,
    FreezeRef,
    Add,
    Sub,
    Mul,
    Div,
    Mod,
    BitOr,
    BitAnd,
    Xor,
    Shl,
    Shr,
    Lt,
    Gt,
    Le,
    Ge,
    Or,
    And,
    Eq,
    Neq,
    Not,
    CastU8,
    CastU16,
    CastU32,
    CastU64,
    CastU128,
    CastU256,
    Other,
}

/// Why an instruction cannot be lowered: its operands do not have the shape
/// that stackless bytecode guarantees, or it uses a feature that the
/// translator does not implement yet.
#[derive(Copy, Clone, Debug, PartialEq, Eq, Structural)]
pub enum LoweringError {
    Malformed,
    Unimplemented,
}

/// How an arithmetic or logical operation is emitted: load both operands,
/// emit the pre-check, widen the shift amount where needed, apply the
/// binary instruction, emit the post-check, and store the result.
#[derive(Debug, PartialEq, Eq)]
pub struct ArithLowering {
    pub name: &'static str,
    pub opcode: BinaryOpcode,
    pub emitter: CheckEmitter,
    pub check: Option<CheckComparison>,
    pub src0: usize,
    pub src1: usize,
    pub dst: usize,
    /// The type that the shift amount is zero-extended to, where it is
    /// narrower than the shifted value.
    pub widen_src1_to: Option<LlvmType>,
}

/// How a comparison is emitted: load both operands, compare them with the
/// predicate, and store the `i1` result.
#[derive(Copy, Clone, Debug, PartialEq, Eq)]
pub struct CompareLowering {
    pub name: &'static str,
    pub pred: IntPredicate,
    pub src0: usize,
    pub src1: usize,
    pub dst: usize,
}

/// How an integer cast converts its operand.
#[derive(Copy, Clone, Debug, PartialEq, Eq, Structural)]
pub enum Conversion {
    ZeroExtend,
    Truncate,
}

/// How a cast is emitted: load the operand, abort when it exceeds the
/// largest value of the target type (only where the target is narrower),
/// then convert it to the target type and store it.
#[derive(Debug, PartialEq, Eq)]
pub struct CastLowering {
    pub src: usize,
    pub dst: usize,
    pub src_width: u64,
    pub dst_width: u64,
    /// The largest value of the target type, checked against the operand.
    pub max_value: Option<u128>,
    pub src_type: LlvmType,
    pub conversion: Conversion,
    pub dst_type: LlvmType,
}

/// How a call of stackless bytecode is emitted.
#[derive(Debug, PartialEq, Eq)]
pub enum CallLowering {
    /// Call the declared function with the values of the locals `args`,
    /// in order, storing its result (if any) into local `result`.
    FunctionCall { module: usize, function: usize, args: Vec<usize>, result: Option<usize> },
    /// Store the address of local `src` into local `dst`.
    BorrowLocal { src: usize, dst: usize },
    /// Emit nothing.
    Nop,
    /// Load the reference in `src`, load through it a value of type `ty`,
    /// and store it into `dst`.
    ReadRef { ty: LlvmType, src: usize, dst: usize },
    /// Load the value in `src` of type `ty` and store it through the
    /// reference held in `dst`.
    WriteRef { ty: LlvmType, src: usize, dst: usize },
    /// Copy the reference in `src` (of type `ty`) into `dst`.
    FreezeRef { ty: LlvmType, src: usize, dst: usize },
    Arith(ArithLowering),
    Compare(CompareLowering),
    /// Store into `dst` the value of `src` (of type `ty`) xor-ed with 1.
    Not { ty: LlvmType, src: usize, dst: usize },
    Cast(CastLowering),
}

/// The dynamic check of an arithmetic operation, given the bit width of
/// the shifted value (used by the shift check alone: a shift aborts when
/// its amount, a `u8`, is not below that width; no `u8` reaches a width of
/// 256, so there the shift needs no check).
pub open spec fn check_comparison_of(check: DynamicCheck, shifted_width: nat) -> Option<
    CheckComparison,
> {
    match check {
        DynamicCheck::Nothing => None,
        DynamicCheck::ShiftAmount => if shifted_width > 255 {
            None
        } else {
            Some(
                CheckComparison {
                    pred: IntPredicate::UGE,
                    lhs: CheckOperand::Src1,
                    rhs: CheckOperand::Constant(shifted_width as u128),
                },
            )
        },
        DynamicCheck::AddOverflow => Some(
            CheckComparison {
                pred: IntPredicate::ULT,
                lhs: CheckOperand::Dst,
                rhs: CheckOperand::Src0,
            },
        ),
        DynamicCheck::SubUnderflow => Some(
            CheckComparison {
                pred: IntPredicate::UGT,
                lhs: CheckOperand::Dst,
                rhs: CheckOperand::Src0,
            },
        ),
        DynamicCheck::DivisionByZero => Some(
            CheckComparison {
                pred: IntPredicate::EQ,
                lhs: CheckOperand::Src1,
                rhs: CheckOperand::Constant(0),
            },
        ),
    }
}

/// The comparison that a dynamic check emits, where the shifted value has
/// `shifted_width` bits.
pub fn check_comparison(check: DynamicCheck, shifted_width: u64) -> (r: Option<CheckComparison>)
    ensures
        r == check_comparison_of(check, shifted_width as nat),
{
    match check {
        DynamicCheck::Nothing => None,
        DynamicCheck::ShiftAmount => if shifted_width > 255 {
            None
        } else {
            Some(
                CheckComparison {
                    pred: IntPredicate::UGE,
                    lhs: CheckOperand::Src1,
                    rhs: CheckOperand::Constant(shifted_width as u128),
                },
            )
        },
        DynamicCheck::AddOverflow => Some(
            CheckComparison {
                pred: IntPredicate::ULT,
                lhs: CheckOperand::Dst,
                rhs: CheckOperand::Src0,
            },
        ),
        DynamicCheck::SubUnderflow => Some(
            CheckComparison {
                pred: IntPredicate::UGT,
                lhs: CheckOperand::Dst,
                rhs: CheckOperand::Src0,
            },
        ),
        DynamicCheck::DivisionByZero => Some(
            CheckComparison {
                pred: IntPredicate::EQ,
                lhs: CheckOperand::Src1,
                rhs: CheckOperand::Constant(0),
            },
        ),
    }
}

/// The instruction name, LLVM opcode and check of each arithmetic or
/// logical operation of Move.
pub open spec fn arith_table(op: Operation) -> Option<(&'static str, BinaryOpcode, CheckEmitter)> {
    let nop = CheckEmitter { check: DynamicCheck::Nothing, kind: EmitterFnKind::PreCheck };
    match op {
        Operation::Add => Some(
            (
                "add",
                BinaryOpcode::Add,
                CheckEmitter { check: DynamicCheck::AddOverflow, kind: EmitterFnKind::PostCheck },
            ),
        ),
        Operation::Sub => Some(
            (
                "sub",
                BinaryOpcode::Sub,
                CheckEmitter { check: DynamicCheck::SubUnderflow, kind: EmitterFnKind::PostCheck },
            ),
        ),
        Operation::Mul => Some(("mul", BinaryOpcode::Mul, nop)),
        Operation::Div => Some(
            (
                "div",
                BinaryOpcode::UDiv,
                CheckEmitter { check: DynamicCheck::DivisionByZero, kind: EmitterFnKind::PreCheck },
            ),
        ),
        Operation::Mod => Some(("mod", BinaryOpcode::URem, nop)),
        Operation::BitOr => Some(("or", BinaryOpcode::Or, nop)),
        Operation::BitAnd => Some(("and", BinaryOpcode::And, nop)),
        Operation::Xor => Some(("xor", BinaryOpcode::Xor, nop)),
        Operation::Shl => Some(
            (
                "shl",
                BinaryOpcode::Shl,
                CheckEmitter { check: DynamicCheck::ShiftAmount, kind: EmitterFnKind::PreCheck },
            ),
        ),
        Operation::Shr => Some(
            (
                "shr",
                BinaryOpcode::LShr,
                CheckEmitter { check: DynamicCheck::ShiftAmount, kind: EmitterFnKind::PreCheck },
            ),
        ),
        Operation::Or => Some(("or", BinaryOpcode::Or, nop)),
        Operation::And => Some(("and", BinaryOpcode::And, nop)),
        _ => None,
    }
}

/// The instruction name and predicate of each comparison of Move.
pub open spec fn compare_table(op: Operation) -> Option<(&'static str, IntPredicate)> {
    match op {
        Operation::Lt => Some(("lt", IntPredicate::ULT)),
        Operation::Gt => Some(("gt", IntPredicate::UGT)),
        Operation::Le => Some(("le", IntPredicate::ULE)),
        Operation::Ge => Some(("ge", IntPredicate::UGE)),
        Operation::Eq => Some(("eq", IntPredicate::EQ)),
        Operation::Neq => Some(("ne", IntPredicate::NE)),
        _ => None,
    }
}

/// Every temporary of the sequence is a local of the function.
pub open spec fn temps_in_range(temps: Seq<usize>, n: nat) -> bool {
    forall|i: int| 0 <= i < temps.len() ==> temps[i] < n
}

/// The call has exactly `nd` results and `ns` arguments, all of them locals
/// of the function.
pub open spec fn call_shape(dst: Seq<usize>, src: Seq<usize>, nd: nat, ns: nat, n: nat) -> bool {
    &&& dst.len() == nd
    &&& src.len() == ns
    &&& temps_in_range(dst, n)
    &&& temps_in_range(src, n)
}

/// Every local of the function can be held in an LLVM type.
pub open spec fn locals_have_llvm_types(locals: Seq<MoveType>) -> bool {
    forall|i: int| 0 <= i < locals.len() ==> has_llvm_type(#[trigger] locals[i])
}

/// How an arithmetic or logical operation on the given locals is lowered.
pub open spec fn arith_lowering_of(
    name: &'static str,
    opcode: BinaryOpcode,
    emitter: CheckEmitter,
    dst: Seq<usize>,
    src: Seq<usize>,
    locals: Seq<MoveType>,
) -> Result<ArithLowering, LoweringError> {
    if !call_shape(dst, src, 1, 2, locals.len()) {
        Err(LoweringError::Malformed)
    } else {
        let t0 = locals[src[0] as int];
        let t1 = locals[src[1] as int];
        let is_shift = opcode == BinaryOpcode::Shl || opcode == BinaryOpcode::LShr;
        let shifted_width: nat = if is_shift {
            bitwidth(t0)
        } else {
            0
        };
        if is_shift && !(has_bitwidth(t0) && has_bitwidth(t1)) {
            Err(LoweringError::Unimplemented)
        } else if is_shift && bitwidth(t1) != 8 {
            Err(LoweringError::Malformed)
        } else {
            Ok(
                ArithLowering {
                    name,
                    opcode,
                    emitter,
                    check: check_comparison_of(emitter.check, shifted_width),
                    src0: src[0],
                    src1: src[1],
                    dst: dst[0],
                    widen_src1_to: if is_shift && bitwidth(t0) > 8 {
                        Some(llvm_type_of(t0))
                    } else {
                        None
                    },
                },
            )
        }
    }
}

/// The largest value of an unsigned integer of `w` bits.
pub open spec fn max_value(w: nat) -> int {
    pow2(w) - 1
}

/// How a cast from local `src` to local `dst` is lowered.
pub open spec fn cast_lowering_of(dst: Seq<usize>, src: Seq<usize>, locals: Seq<MoveType>) -> Result<
    CastLowering,
    LoweringError,
> {
    if !call_shape(dst, src, 1, 1, locals.len()) {
        Err(LoweringError::Malformed)
    } else {
        let ts = locals[src[0] as int];
        let td = locals[dst[0] as int];
        if !is_number_type(ts) || !is_number_type(td) {
            Err(LoweringError::Malformed)
        } else if !has_bitwidth(ts) || !has_bitwidth(td) {
            Err(LoweringError::Unimplemented)
        } else {
            let sw = bitwidth(ts);
            let dw = bitwidth(td);
            Ok(
                CastLowering {
                    src: src[0],
                    dst: dst[0],
                    src_width: sw as u64,
                    dst_width: dw as u64,
                    max_value: if sw <= dw {
                        None
                    } else {
                        Some(max_value(dw) as u128)
                    },
                    src_type: llvm_type_of(ts),
                    conversion: if sw < dw {
                        Conversion::ZeroExtend
                    } else {
                        Conversion::Truncate
                    },
                    dst_type: llvm_type_of(td),
                },
            )
        }
    }
}

/// How a call of stackless bytecode with results `dst`, operation `op` and
/// arguments `src` is lowered, for a function whose locals have the types
/// `locals`.
pub open spec fn call_lowering_of(
    dst: Seq<usize>,
    op: Operation,
    args: Vec<usize>,
    locals: Seq<MoveType>,
) -> Result<CallLowering, LoweringError> {
    let n = locals.len();
    let src = args@;
    match op {
        Operation::Function(module, function) => {
            if !(temps_in_range(dst, n) && temps_in_range(src, n)) {
                Err(LoweringError::Malformed)
            } else if dst.len() > 1 {
                Err(LoweringError::Unimplemented)
            } else {
                Ok(
                    CallLowering::FunctionCall {
                        module,
                        function,
                        args,
                        result: if dst.len() == 0 {
                            None
                        } else {
                            Some(dst[0])
                        },
                    },
                )
            }
        },
        Operation::BorrowLoc => if call_shape(dst, src, 1, 1, n) {
            Ok(CallLowering::BorrowLocal { src: src[0], dst: dst[0] })
        } else {
            Err(LoweringError::Malformed)
        },
        Operation::Destroy => if !call_shape(dst, src, 0, 1, n) {
            Err(LoweringError::Malformed)
        } else if locals[src[0] as int] is Primitive {
            Ok(CallLowering::Nop)
        } else {
            Err(LoweringError::Unimplemented)
        },
        Operation::ReadRef => if call_shape(dst, src, 1, 1, n) {
            Ok(
                CallLowering::ReadRef {
                    ty: llvm_type_of(locals[dst[0] as int]),
                    src: src[0],
                    dst: dst[0],
                },
            )
        } else {
            Err(LoweringError::Malformed)
        },
        Operation::WriteRef => if call_shape(dst, src, 0, 2, n) {
            Ok(
                CallLowering::WriteRef {
                    ty: llvm_type_of(locals[src[1] as int]),
                    src: src[1],
                    dst: src[0],
                },
            )
        } else {
            Err(LoweringError::Malformed)
        },
        Operation::FreezeRef => if call_shape(dst, src, 1, 1, n) {
            Ok(
                CallLowering::FreezeRef {
                    ty: llvm_type_of(locals[src[0] as int]),
                    src: src[0],
                    dst: dst[0],
                },
            )
        } else {
            Err(LoweringError::Malformed)
        },
        Operation::Not => if !call_shape(dst, src, 1, 1, n) {
            Err(LoweringError::Malformed)
        } else if !(is_bool_type(locals[src[0] as int]) && is_bool_type(locals[dst[0] as int])) {
            Err(LoweringError::Malformed)
        } else {
            Ok(
                CallLowering::Not {
                    ty: llvm_type_of(locals[src[0] as int]),
                    src: src[0],
                    dst: dst[0],
                },
            )
        },
        Operation::CastU8 | Operation::CastU16 | Operation::CastU32 | Operation::CastU64
        | Operation::CastU128 | Operation::CastU256 => match cast_lowering_of(dst, src, locals) {
            Ok(c) => Ok(CallLowering::Cast(c)),
            Err(e) => Err(e),
        },
        Operation::Other => Err(LoweringError::Unimplemented),
        _ => {
            if let Some((name, pred)) = compare_table(op) {
                if call_shape(dst, src, 1, 2, n) {
                    Ok(
                        CallLowering::Compare(
                            CompareLowering { name, pred, src0: src[0], src1: src[1], dst: dst[0] },
                        ),
                    )
                } else {
                    Err(LoweringError::Malformed)
                }
            } else if let Some((name, opcode, emitter)) = arith_table(op) {
                match arith_lowering_of(name, opcode, emitter, dst, src, locals) {
                    Ok(a) => Ok(CallLowering::Arith(a)),
                    Err(e) => Err(e),
                }
            } else {
                Err(LoweringError::Unimplemented)
            }
        },
    }
}

/// Whether every temporary of the slice is below `n`.
fn all_in_range(temps: &[usize], n: usize) -> (r: bool)
    ensures
        r == temps_in_range(temps@, n as nat),
{
    let mut i: usize = 0;
    while i < temps.len()
        invariant
            0 <= i <= temps.len(),
            forall|j: int| 0 <= j < i ==> temps@[j] < n,
        decreases temps.len() - i,
    {
        if temps[i] >= n {
            return false;
        }
        i = i + 1;
    }
    true
}

/// Whether the call has exactly `nd` results and `ns` arguments, all of
/// them locals.
fn has_shape(dst: &[usize], src: &[usize], nd: usize, ns: usize, n: usize) -> (r: bool)
    ensures
        r == call_shape(dst@, src@, nd as nat, ns as nat, n as nat),
{
    dst.len() == nd && src.len() == ns && all_in_range(dst, n) && all_in_range(src, n)
}

/// The largest value of an unsigned integer of `w` bits, for `w` up to 128.
pub fn cast_max_value(w: u64) -> (r: u128)
    requires
        w <= 128,
    ensures
        r == max_value(w as nat),
{
    let mut m: u128 = 0;
    let mut i: u64 = 0;
    proof {
        lemma2_to64();
    }
    while i < w
        invariant
            i <= w <= 128,
            m == pow2(i as nat) - 1,
        decreases w - i,
    {
        proof {
            lemma_pow2_unfold((i + 1) as nat);
            pow2_128_is_u128_bound();
            if i + 1 < 128 {
                lemma_pow2_strictly_increases((i + 1) as nat, 128);
            }
        }
        m = m * 2 + 1;
        i = i + 1;
    }
    m
}

/// `2^128` is one more than the largest `u128`.
pub(crate) proof fn pow2_128_is_u128_bound()
    ensures
        pow2(128) == u128::MAX + 1,
{
    lemma2_to64();
    lemma_pow2_adds(64, 64);
}

/// How a cast between the locals is lowered.
fn lower_cast(dst: &[usize], src: &[usize], locals: &Vec<MoveType>) -> (r: Result<
    CastLowering,
    LoweringError,
>)
    requires
        locals_have_llvm_types(locals@),
    ensures
        r == cast_lowering_of(dst@, src@, locals@),
{
    if !has_shape(dst, src, 1, 1, locals.len()) {
        return Err(LoweringError::Malformed);
    }
    let ts = &locals[src[0]];
    let td = &locals[dst[0]];
    if !is_number(ts) || !is_number(td) {
        return Err(LoweringError::Malformed);
    }
    if !sized(ts) || !sized(td) {
        return Err(LoweringError::Unimplemented);
    }
    let sw = get_bitwidth(ts);
    let dw = get_bitwidth(td);
    let max_value = if sw <= dw {
        None
    } else {
        Some(cast_max_value(dw))
    };
    let conversion = if sw < dw {
        Conversion::ZeroExtend
    } else {
        Conversion::Truncate
    };
    Ok(
        CastLowering {
            src: src[0],
            dst: dst[0],
            src_width: sw,
            dst_width: dw,
            max_value,
            src_type: llvm_type(ts),
            conversion,
            dst_type: llvm_type(td),
        },
    )
}

/// Whether the type has a bit width.
fn sized(t: &MoveType) -> (r: bool)
    ensures
        r == has_bitwidth(*t),
{
    match t {
        MoveType::Primitive(p) => match p {
            PrimitiveType::Bool | PrimitiveType::U8 | PrimitiveType::U16 | PrimitiveType::U32
            | PrimitiveType::U64 | PrimitiveType::U128 | PrimitiveType::U256 => true,
            _ => false,
        },
        _ => false,
    }
}

/// How an arithmetic or logical operation on the locals is lowered.
fn lower_arith(
    name: &'static str,
    opcode: BinaryOpcode,
    emitter: CheckEmitter,
    dst: &[usize],
    src: &[usize],
    locals: &Vec<MoveType>,
) -> (r: Result<ArithLowering, LoweringError>)
    requires
        locals_have_llvm_types(locals@),
    ensures
        r == arith_lowering_of(name, opcode, emitter, dst@, src@, locals@),
{
    if !has_shape(dst, src, 1, 2, locals.len()) {
        return Err(LoweringError::Malformed);
    }
    let t0 = &locals[src[0]];
    let t1 = &locals[src[1]];
    let is_shift = opcode == BinaryOpcode::Shl || opcode == BinaryOpcode::LShr;
    let mut shifted_width: u64 = 0;
    let mut widen_src1_to: Option<LlvmType> = None;
    if is_shift {
        if !sized(t0) || !sized(t1) {
            return Err(LoweringError::Unimplemented);
        }
        if get_bitwidth(t1) != 8 {
            return Err(LoweringError::Malformed);
        }
        shifted_width = get_bitwidth(t0);
        if shifted_width > 8 {
            widen_src1_to = Some(llvm_type(t0));
        }
    }
    Ok(
        ArithLowering {
            name,
            opcode,
            emitter,
            check: check_comparison(emitter.check, shifted_width),
            src0: src[0],
            src1: src[1],
            dst: dst[0],
            widen_src1_to,
        },
    )
}

/// The plan reads the call's arguments and writes its results where the
/// call says, with the LLVM types of those locals: a function call passes
/// the argument locals in order and stores into the first result local;
/// an arithmetic operation or comparison takes its first operand from the
/// first argument and its second from the second, and stores into the
/// result; `ReadRef`, `FreezeRef`, `BorrowLoc`, `Not` and casts read the
/// one argument and write the one result; `WriteRef` stores the value of
/// its second argument through the reference held in its first.
pub open spec fn plan_follows_operands(
    r: CallLowering,
    dst: Seq<usize>,
    src: Seq<usize>,
    locals: Seq<MoveType>,
) -> bool {
    match r {
        CallLowering::FunctionCall { args, result, .. } => args@ == src && result == (if dst.len()
            == 0 {
            None
        } else {
            Some(dst[0])
        }),
        CallLowering::BorrowLocal { src: s, dst: d } => s == src[0] && d == dst[0],
        CallLowering::Nop => dst.len() == 0,
        CallLowering::ReadRef { ty, src: s, dst: d } => s == src[0] && d == dst[0] && ty
            == llvm_type_of(locals[d as int]),
        CallLowering::WriteRef { ty, src: s, dst: d } => s == src[1] && d == src[0] && ty
            == llvm_type_of(locals[s as int]),
        CallLowering::FreezeRef { ty, src: s, dst: d } => s == src[0] && d == dst[0] && ty
            == llvm_type_of(locals[s as int]),
        CallLowering::Arith(l) => {
            &&& l.src0 == src[0]
            &&& l.src1 == src[1]
            &&& l.dst == dst[0]
            &&& l.widen_src1_to matches Some(t) ==> t == llvm_type_of(locals[src[0] as int])
                && bitwidth(locals[src[1] as int]) < bitwidth(locals[src[0] as int])
            &&& (l.opcode == BinaryOpcode::Shl || l.opcode == BinaryOpcode::LShr) && bitwidth(
                locals[src[1] as int],
            ) < bitwidth(locals[src[0] as int]) ==> l.widen_src1_to is Some
        },
        CallLowering::Compare(c) => c.src0 == src[0] && c.src1 == src[1] && c.dst == dst[0],
        CallLowering::Not { ty, src: s, dst: d } => s == src[0] && d == dst[0] && ty
            == llvm_type_of(locals[s as int]),
        CallLowering::Cast(c) => {
            &&& c.src == src[0]
            &&& c.dst == dst[0]
            &&& c.src_type == llvm_type_of(locals[c.src as int])
            &&& c.dst_type == llvm_type_of(locals[c.dst as int])
            &&& c.src_width == bitwidth(locals[c.src as int])
            &&& c.dst_width == bitwidth(locals[c.dst as int])
            &&& (c.conversion == Conversion::ZeroExtend <==> c.src_width < c.dst_width)
        },
    }
}

/// The plan is of the kind that the operation calls for: a function call
/// of the named module and function, a comparison for a comparison, an
/// arithmetic instruction for an arithmetic or logical operation, and so
/// on for references, negation and casts.
pub open spec fn plan_matches_operation(op: Operation, r: CallLowering) -> bool {
    match op {
        Operation::Function(m, f) => r matches CallLowering::FunctionCall { module, function, .. }
            && module == m && function == f,
        Operation::BorrowLoc => r is BorrowLocal,
        Operation::Destroy => r is Nop,
        Operation::ReadRef => r is ReadRef,
        Operation::WriteRef => r is WriteRef,
        Operation::FreezeRef => r is FreezeRef,
        Operation::Not => r is Not,
        Operation::CastU8 | Operation::CastU16 | Operation::CastU32 | Operation::CastU64
        | Operation::CastU128 | Operation::CastU256 => r is Cast,
        Operation::Lt | Operation::Gt | Operation::Le | Operation::Ge | Operation::Eq
        | Operation::Neq => r is Compare,
        Operation::Other => false,
        _ => r is Arith,
    }
}

/// Every call that the translator lowers reads its arguments and writes
/// its results where the call says (see `plan_follows_operands`).
pub proof fn lowered_calls_follow_operands(
    dst: Seq<usize>,
    op: Operation,
    args: Vec<usize>,
    locals: Seq<MoveType>,
)
    requires
        call_lowering_of(dst, op, args, locals) is Ok,
    ensures
        call_lowering_of(dst, op, args, locals) matches Ok(r) && plan_follows_operands(
            r,
            dst,
            args@,
            locals,
        ) && plan_matches_operation(op, r),
{
}

/// How a call of stackless bytecode is emitted: which instructions, on
/// which locals, with which dynamic checks. `Malformed` where the call does
/// not have the shape that stackless bytecode guarantees, `Unimplemented`
/// where the translator does not support the operation or its types yet.
/// What is emitted keeps Move's meaning, aborts included (see
/// `lowering_keeps_move_meaning`).
pub fn lower_call(dst: &[usize], op: &Operation, args: Vec<usize>, locals: &Vec<MoveType>) -> (r:
    Result<CallLowering, LoweringError>)
    requires
        locals_have_llvm_types(locals@),
    ensures
        r == call_lowering_of(dst@, *op, args, locals@),
        r matches Ok(c) ==> lowering_keeps_move_meaning(c, *op, args@, locals@),
        r matches Ok(c) ==> plan_follows_operands(c, dst@, args@, locals@)
            && plan_matches_operation(*op, c),
{
    let ghost a = args;
    let r = call_plan(dst, op, args, locals);
    proof {
        if r is Ok {
            call_lowering_keeps_move_meaning(dst@, *op, a, locals@);
            lowered_calls_follow_operands(dst@, *op, a, locals@);
        }
    }
    r
}

/// The plan of `lower_call`.
fn call_plan(dst: &[usize], op: &Operation, args: Vec<usize>, locals: &Vec<MoveType>) -> (r: Result<
    CallLowering,
    LoweringError,
>)
    requires
        locals_have_llvm_types(locals@),
    ensures
        r == call_lowering_of(dst@, *op, args, locals@),
{
    if let Operation::Function(module, function) = op {
        let n = locals.len();
        if !(all_in_range(dst, n) && all_in_range(args.as_slice(), n)) {
            return Err(LoweringError::Malformed);
        } else if dst.len() > 1 {
            return Err(LoweringError::Unimplemented);
        }
        let d = if dst.len() == 0 {
            None
        } else {
            Some(dst[0])
        };
        return Ok(CallLowering::FunctionCall { module: *module, function: *function, args, result: d });
    }
    let src = args.as_slice();
    let n = locals.len();
    let nop = CheckEmitter { check: DynamicCheck::Nothing, kind: EmitterFnKind::PreCheck };
    let arith = |name: &'static str, opcode: BinaryOpcode, emitter: CheckEmitter| -> (r: Result<
        CallLowering,
        LoweringError,
    >)
        requires
            locals_have_llvm_types(locals@),
        ensures
            r == (match arith_lowering_of(name, opcode, emitter, dst@, src@, locals@) {
                Ok(a) => Ok(CallLowering::Arith(a)),
                Err(e) => Err(e),
            }),
        {
            match lower_arith(name, opcode, emitter, dst, src, locals) {
                Ok(a) => Ok(CallLowering::Arith(a)),
                Err(e) => Err(e),
            }
        };
    let compare = |name: &'static str, pred: IntPredicate| -> (r: Result<
        CallLowering,
        LoweringError,
    >)
        ensures
            r == (if call_shape(dst@, src@, 1, 2, n as nat) {
                Ok(
                    CallLowering::Compare(
                        CompareLowering { name, pred, src0: src@[0], src1: src@[1], dst: dst@[0] },
                    ),
                )
            } else {
                Err(LoweringError::Malformed)
            }),
        {
            if has_shape(dst, src, 1, 2, n) {
                Ok(
                    CallLowering::Compare(
                        CompareLowering { name, pred, src0: src[0], src1: src[1], dst: dst[0] },
                    ),
                )
            } else {
                Err(LoweringError::Malformed)
            }
        };
    match op {
        // A call of a function is planned above.
        Operation::Function(_, _) => Err(LoweringError::Malformed),
        Operation::BorrowLoc => if has_shape(dst, src, 1, 1, n) {
            Ok(CallLowering::BorrowLocal { src: src[0], dst: dst[0] })
        } else {
            Err(LoweringError::Malformed)
        },
        Operation::Destroy => if !has_shape(dst, src, 0, 1, n) {
            Err(LoweringError::Malformed)
        } else {
            match &locals[src[0]] {
                MoveType::Primitive(_) => Ok(CallLowering::Nop),
                _ => Err(LoweringError::Unimplemented),
            }
        },
        Operation::ReadRef => if has_shape(dst, src, 1, 1, n) {
            Ok(CallLowering::ReadRef { ty: llvm_type(&locals[dst[0]]), src: src[0], dst: dst[0] })
        } else {
            Err(LoweringError::Malformed)
        },
        Operation::WriteRef => if has_shape(dst, src, 0, 2, n) {
            Ok(CallLowering::WriteRef { ty: llvm_type(&locals[src[1]]), src: src[1], dst: src[0] })
        } else {
            Err(LoweringError::Malformed)
        },
        Operation::FreezeRef => if has_shape(dst, src, 1, 1, n) {
            Ok(
                CallLowering::FreezeRef { ty: llvm_type(&locals[src[0]]), src: src[0], dst: dst[0] },
            )
        } else {
            Err(LoweringError::Malformed)
        },
        Operation::Add => arith(
            "add",
            BinaryOpcode::Add,
            CheckEmitter { check: DynamicCheck::AddOverflow, kind: EmitterFnKind::PostCheck },
        ),
        Operation::Sub => arith(
            "sub",
            BinaryOpcode::Sub,
            CheckEmitter { check: DynamicCheck::SubUnderflow, kind: EmitterFnKind::PostCheck },
        ),
        Operation::Mul => arith("mul", BinaryOpcode::Mul, nop),
        Operation::Div => arith(
            "div",
            BinaryOpcode::UDiv,
            CheckEmitter { check: DynamicCheck::DivisionByZero, kind: EmitterFnKind::PreCheck },
        ),
        Operation::Mod => arith("mod", BinaryOpcode::URem, nop),
        Operation::BitOr => arith("or", BinaryOpcode::Or, nop),
        Operation::BitAnd => arith("and", BinaryOpcode::And, nop),
        Operation::Xor => arith("xor", BinaryOpcode::Xor, nop),
        Operation::Shl => arith(
            "shl",
            BinaryOpcode::Shl,
            CheckEmitter { check: DynamicCheck::ShiftAmount, kind: EmitterFnKind::PreCheck },
        ),
        Operation::Shr => arith(
            "shr",
            BinaryOpcode::LShr,
            CheckEmitter { check: DynamicCheck::ShiftAmount, kind: EmitterFnKind::PreCheck },
        ),
        Operation::Lt => compare("lt", IntPredicate::ULT),
        Operation::Gt => compare("gt", IntPredicate::UGT),
        Operation::Le => compare("le", IntPredicate::ULE),
        Operation::Ge => compare("ge", IntPredicate::UGE),
        Operation::Or => arith("or", BinaryOpcode::Or, nop),
        Operation::And => arith("and", BinaryOpcode::And, nop),
        Operation::Eq => compare("eq", IntPredicate::EQ),
        Operation::Neq => compare("ne", IntPredicate::NE),
        Operation::Not => if !has_shape(dst, src, 1, 1, n) {
            Err(LoweringError::Malformed)
        } else if !(is_bool(&locals[src[0]]) && is_bool(&locals[dst[0]])) {
            Err(LoweringError::Malformed)
        } else {
            Ok(CallLowering::Not { ty: llvm_type(&locals[src[0]]), src: src[0], dst: dst[0] })
        },
        Operation::CastU8 | Operation::CastU16 | Operation::CastU32 | Operation::CastU64
        | Operation::CastU128 | Operation::CastU256 => match lower_cast(dst, src, locals) {
            Ok(c) => Ok(CallLowering::Cast(c)),
            Err(e) => Err(e),
        },
        Operation::Other => Err(LoweringError::Unimplemented),
    }
}

} // verus!
