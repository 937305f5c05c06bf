use vstd::prelude::*;
use vstd::arithmetic::power2::pow2;

use crate::lowering::{
    lowered_calls_follow_operands, plan_follows_operands, call_lowering_of, locals_have_llvm_types, lower_call, CallLowering, LoweringError, Operation,
};
use crate::semantics::{call_lowering_keeps_move_meaning, lowering_keeps_move_meaning};
use crate::types::{bitwidth, has_bitwidth, has_llvm_type, llvm_type, llvm_type_of, LlvmType, MoveType, PrimitiveType};

verus! {

/// A 256-bit unsigned integer, as its high and low 128 bits.
#[derive(Copy, Clone, Debug, PartialEq, Eq, Structural)]
pub struct U256 {
    pub high: u128,
    pub low: u128,
}

/// The number that a 256-bit integer denotes.
pub open spec fn u256_value(v: U256) -> int {
    v.high * pow2(128) + v.low
}

/// The constants that stackless bytecode loads into locals, as far as the
/// translator reads them; addresses, byte arrays and vectors are `Other`.
#[derive(Copy, Clone, Debug, PartialEq, Eq, Structural)]
pub enum Constant {
    Bool(bool),
    U8(u8),
    U16(u16),
    U32(u32),
    U64(u64),
    U128(u128),
    U256(U256),
    Other,
}

/// An LLVM integer constant: one of at most 128 bits, or one of 256 bits.
#[derive(Copy, Clone, Debug, PartialEq, Eq, Structural)]
pub enum ConstantLowering {
    Int { width: u32, value: u128 },
    Int256(U256),
}

/// How a Move constant is emitted: an integer constant of the width of its
/// type, holding the same number (`false` is 0, `true` is 1).
pub open spec fn constant_lowering_of(c: Constant) -> Result<ConstantLowering, LoweringError> {
    match c {
        Constant::Bool(b) => Ok(
            ConstantLowering::Int {
                width: 1,
                value: if b {
                    1
                } else {
                    0
                },
            },
        ),
        Constant::U8(v) => Ok(ConstantLowering::Int { width: 8, value: v as u128 }),
        Constant::U16(v) => Ok(ConstantLowering::Int { width: 16, value: v as u128 }),
        Constant::U32(v) => Ok(ConstantLowering::Int { width: 32, value: v as u128 }),
        Constant::U64(v) => Ok(ConstantLowering::Int { width: 64, value: v as u128 }),
        Constant::U128(v) => Ok(ConstantLowering::Int { width: 128, value: v }),
        Constant::U256(v) => Ok(ConstantLowering::Int256(v)),
        Constant::Other => Err(LoweringError::Unimplemented),
    }
}

/// The LLVM constant that holds a Move constant.
pub fn lower_constant(c: &Constant) -> (r: Result<ConstantLowering, LoweringError>)
    ensures
        r == constant_lowering_of(*c),
        r matches Ok(l) ==> constant_lowering_width(l) == constant_type_width(*c)
            && constant_lowering_value(l) == constant_value(*c),
{
    proof {
        if *c != Constant::Other {
            constant_lowering_preserves_value(*c);
        }
    }
    match c {
        Constant::Bool(b) => Ok(
            ConstantLowering::Int {
                width: 1,
                value: if *b {
                    1
                } else {
                    0
                },
            },
        ),
        Constant::U8(v) => Ok(ConstantLowering::Int { width: 8, value: *v as u128 }),
        Constant::U16(v) => Ok(ConstantLowering::Int { width: 16, value: *v as u128 }),
        Constant::U32(v) => Ok(ConstantLowering::Int { width: 32, value: *v as u128 }),
        Constant::U64(v) => Ok(ConstantLowering::Int { width: 64, value: *v as u128 }),
        Constant::U128(v) => Ok(ConstantLowering::Int { width: 128, value: *v }),
        Constant::U256(v) => Ok(ConstantLowering::Int256(*v)),
        Constant::Other => Err(LoweringError::Unimplemented),
    }
}

/// The kinds of assignment between locals in stackless bytecode.
#[derive(Copy, Clone, Debug, PartialEq, Eq, Structural)]
pub enum AssignKind {
    Move,
    Copy,
    Store,
}

/// The instructions of stackless bytecode, as far as the translator reads
/// them. Temporaries are local indices and labels are label numbers. A
/// call carries its results, operation, arguments and its abort action
/// (label and temporary), if any.
#[derive(Clone, Debug)]
pub enum Bytecode {
    Assign(usize, usize, AssignKind),
    Call(Vec<usize>, Operation, Vec<usize>, Option<(usize, usize)>),
    Ret(Vec<usize>),
    Load(usize, Constant),
    Branch(usize, usize, usize),
    Jump(usize),
    Label(usize),
    Abort(usize),
    Other,
}

/// The calls into the Move run-time library that the translator emits.
#[derive(Copy, Clone, Debug, PartialEq, Eq, Structural)]
pub enum RtCall {
    Abort(usize),
}

/// How an instruction of stackless bytecode is emitted.
#[derive(Debug, PartialEq, Eq)]
pub enum InstrLowering {
    /// Load the value of type `ty` from local `src` and store it into `dst`.
    Assign { ty: LlvmType, src: usize, dst: usize },
    Call(CallLowering),
    ReturnVoid,
    /// Load the value of type `ty` from local `src` and return it.
    Return { ty: LlvmType, src: usize },
    /// Store the constant into local `dst`.
    LoadConstant { value: ConstantLowering, dst: usize },
    /// Load the condition of type `ty` from local `cond` and branch to the
    /// block of `then_label` when it holds, else to that of `else_label`.
    CondBranch { ty: LlvmType, cond: usize, then_label: usize, else_label: usize },
    Jump { label: usize },
    /// Continue emitting at the end of the block of `label`.
    Label { label: usize },
    /// Call the run-time function, then mark the rest unreachable.
    RuntimeCall(RtCall),
}

/// The types that an assignment can move: `bool`, every fixed-width
/// integer, and references.
pub open spec fn movable_type(t: MoveType) -> bool {
    match t {
        MoveType::Primitive(p) => match p {
            PrimitiveType::Bool | PrimitiveType::U8 | PrimitiveType::U16 | PrimitiveType::U32
            | PrimitiveType::U64 | PrimitiveType::U128 | PrimitiveType::U256 => true,
            _ => false,
        },
        MoveType::Reference(_, _) => true,
        MoveType::Other => false,
    }
}

/// The types that an assignment can copy or store: `bool`, `u8`, `u32`,
/// `u64` and `u128` (not `u16`, `u256` or references).
pub open spec fn copyable_type(t: MoveType) -> bool {
    match t {
        MoveType::Primitive(p) => match p {
            PrimitiveType::Bool | PrimitiveType::U8 | PrimitiveType::U32 | PrimitiveType::U64
            | PrimitiveType::U128 => true,
            _ => false,
        },
        _ => false,
    }
}

/// How an instruction of stackless bytecode is lowered, for a function
/// whose locals have the types `locals`.
pub open spec fn instruction_lowering_of(instr: Bytecode, locals: Seq<MoveType>) -> Result<
    InstrLowering,
    LoweringError,
> {
    let n = locals.len();
    match instr {
        Bytecode::Assign(dst, src, kind) => if !(dst < n && src < n) {
            Err(LoweringError::Malformed)
        } else if (kind == AssignKind::Move && movable_type(locals[dst as int])) || (kind
            != AssignKind::Move && copyable_type(locals[dst as int])) {
            Ok(InstrLowering::Assign { ty: llvm_type_of(locals[dst as int]), src, dst })
        } else {
            Err(LoweringError::Unimplemented)
        },
        Bytecode::Call(dst, op, src, abort_action) => if abort_action is Some {
            Err(LoweringError::Unimplemented)
        } else {
            match call_lowering_of(dst@, op, src, locals) {
                Ok(c) => Ok(InstrLowering::Call(c)),
                Err(e) => Err(e),
            }
        },
        Bytecode::Ret(vals) => if vals.len() == 0 {
            Ok(InstrLowering::ReturnVoid)
        } else if vals.len() == 1 {
            if vals[0] < n {
                Ok(InstrLowering::Return { ty: llvm_type_of(locals[vals[0] as int]), src: vals[0] })
            } else {
                Err(LoweringError::Malformed)
            }
        } else {
            Err(LoweringError::Unimplemented)
        },
        Bytecode::Load(dst, c) => if dst >= n {
            Err(LoweringError::Malformed)
        } else {
            match constant_lowering_of(c) {
                Ok(value) => Ok(InstrLowering::LoadConstant { value, dst }),
                Err(e) => Err(e),
            }
        },
        Bytecode::Branch(then_label, else_label, cond) => if cond < n {
            Ok(
                InstrLowering::CondBranch {
                    ty: llvm_type_of(locals[cond as int]),
                    cond,
                    then_label,
                    else_label,
                },
            )
        } else {
            Err(LoweringError::Malformed)
        },
        Bytecode::Jump(label) => Ok(InstrLowering::Jump { label }),
        Bytecode::Label(label) => Ok(InstrLowering::Label { label }),
        Bytecode::Abort(local) => if local < n {
            Ok(InstrLowering::RuntimeCall(RtCall::Abort(local)))
        } else {
            Err(LoweringError::Malformed)
        },
        Bytecode::Other => Err(LoweringError::Unimplemented),
    }
}

/// The plan reads and writes the locals and jumps to the labels that the
/// instruction names: an assignment `dst := src` loads `src` and stores
/// into `dst` (at `dst`'s type), whatever its kind; a call follows its
/// operands (see `plan_follows_operands`); a return returns its one value
/// (or nothing); a load stores its constant into its local; a branch tests
/// its condition local and goes to its first label when it holds, else to
/// its second; a jump, a label and an abort name their label or local.
pub open spec fn instruction_follows_operands(r: InstrLowering, instr: Bytecode, locals: Seq<
    MoveType,
>) -> bool {
    match r {
        InstrLowering::Assign { ty, src, dst } => instr matches Bytecode::Assign(d, s, _) && s
            == src && d == dst && ty == llvm_type_of(locals[dst as int]),
        InstrLowering::Call(c) => instr matches Bytecode::Call(d, _, s, _) && plan_follows_operands(
            c,
            d@,
            s@,
            locals,
        ),
        InstrLowering::ReturnVoid => instr matches Bytecode::Ret(v) && v@.len() == 0,
        InstrLowering::Return { ty, src } => instr matches Bytecode::Ret(v) && v@ == seq![src] && ty
            == llvm_type_of(locals[src as int]),
        InstrLowering::LoadConstant { dst, .. } => instr matches Bytecode::Load(d, _) && d == dst,
        InstrLowering::CondBranch { ty, cond, then_label, else_label } => instr matches Bytecode::Branch(
            t,
            e,
            c,
        ) && t == then_label && e == else_label && c == cond && ty == llvm_type_of(
            locals[cond as int],
        ),
        InstrLowering::Jump { label } => instr matches Bytecode::Jump(l) && l == label,
        InstrLowering::Label { label } => instr matches Bytecode::Label(l) && l == label,
        InstrLowering::RuntimeCall(RtCall::Abort(local)) => instr matches Bytecode::Abort(l) && l
            == local,
    }
}

/// Every instruction that the translator lowers reads and writes the
/// locals and labels that it names (see `instruction_follows_operands`).
pub proof fn lowered_instructions_follow_operands(instr: Bytecode, locals: Seq<MoveType>)
    requires
        instruction_lowering_of(instr, locals) is Ok,
    ensures
        instruction_lowering_of(instr, locals) matches Ok(r) && instruction_follows_operands(
            r,
            instr,
            locals,
        ),
{
    match instr {
        Bytecode::Call(d, op, s, _) => lowered_calls_follow_operands(d@, op, s, locals),
        Bytecode::Ret(v) => {
            if v@.len() == 1 {
                assert(v@ =~= seq![v@[0]]);
            }
        },
        _ => {},
    }
}

/// How an instruction of stackless bytecode is emitted, for a function
/// whose locals have the types `locals`. `Malformed` where the instruction
/// does not have the shape that stackless bytecode guarantees,
/// `Unimplemented` where the translator does not support it yet. A call
/// is emitted so that it keeps Move's meaning (see
/// `lowering_keeps_move_meaning`), and a constant is loaded with the same
/// number at its type's width.
pub fn lower_instruction(instr: Bytecode, locals: &Vec<MoveType>) -> (r: Result<
    InstrLowering,
    LoweringError,
>)
    requires
        locals_have_llvm_types(locals@),
    ensures
        r == instruction_lowering_of(instr, locals@),
        r matches Ok(p) ==> instruction_follows_operands(p, instr, locals@),
        r matches Ok(InstrLowering::Call(cl)) ==> (instr matches Bytecode::Call(d, op, s, _)
            && lowering_keeps_move_meaning(cl, op, s@, locals@)),
        r matches Ok(InstrLowering::LoadConstant { value, .. }) ==> (instr matches Bytecode::Load(
            _,
            c,
        ) && constant_lowering_width(value) == constant_type_width(c) && constant_lowering_value(
            value,
        ) == constant_value(c)),
{
    let ghost g = instr;
    let r = instruction_plan(instr, locals);
    proof {
        if r is Ok {
            lowered_instructions_follow_operands(g, locals@);
        }
        match g {
            Bytecode::Call(d, op, s, _) => {
                if call_lowering_of(d@, op, s, locals@) is Ok {
                    call_lowering_keeps_move_meaning(d@, op, s, locals@);
                }
            },
            Bytecode::Load(_, c) => {
                if c != Constant::Other {
                    constant_lowering_preserves_value(c);
                }
            },
            _ => {},
        }
    }
    r
}

/// The plan of `lower_instruction`.
fn instruction_plan(instr: Bytecode, locals: &Vec<MoveType>) -> (r: Result<
    InstrLowering,
    LoweringError,
>)
    requires
        locals_have_llvm_types(locals@),
    ensures
        r == instruction_lowering_of(instr, locals@),
{
    let n = locals.len();
    match instr {
        Bytecode::Assign(dst, src, kind) => {
            if !(dst < n && src < n) {
                return Err(LoweringError::Malformed);
            }
            let t = &locals[dst];
            let supported = match kind {
                AssignKind::Move => match t {
                    MoveType::Primitive(p) => match p {
                        PrimitiveType::Bool | PrimitiveType::U8 | PrimitiveType::U16
                        | PrimitiveType::U32 | PrimitiveType::U64 | PrimitiveType::U128
                        | PrimitiveType::U256 => true,
                        _ => false,
                    },
                    MoveType::Reference(_, _) => true,
                    MoveType::Other => false,
                },
                AssignKind::Copy | AssignKind::Store => match t {
                    MoveType::Primitive(p) => match p {
                        PrimitiveType::Bool | PrimitiveType::U8 | PrimitiveType::U32
                        | PrimitiveType::U64 | PrimitiveType::U128 => true,
                        _ => false,
                    },
                    _ => false,
                },
            };
            if supported {
                Ok(InstrLowering::Assign { ty: llvm_type(t), src: src, dst: dst })
            } else {
                Err(LoweringError::Unimplemented)
            }
        },
        Bytecode::Call(dst, op, src, abort_action) => {
            if abort_action.is_some() {
                return Err(LoweringError::Unimplemented);
            }
            match lower_call(dst.as_slice(), &op, src, locals) {
                Ok(c) => Ok(InstrLowering::Call(c)),
                Err(e) => Err(e),
            }
        },
        Bytecode::Ret(vals) => {
            if vals.len() == 0 {
                Ok(InstrLowering::ReturnVoid)
            } else if vals.len() == 1 {
                if vals[0] < n {
                    Ok(InstrLowering::Return { ty: llvm_type(&locals[vals[0]]), src: vals[0] })
                } else {
                    Err(LoweringError::Malformed)
                }
            } else {
                Err(LoweringError::Unimplemented)
            }
        },
        Bytecode::Load(dst, c) => {
            if dst >= n {
                return Err(LoweringError::Malformed);
            }
            match lower_constant(&c) {
                Ok(value) => Ok(InstrLowering::LoadConstant { value, dst: dst }),
                Err(e) => Err(e),
            }
        },
        Bytecode::Branch(then_label, else_label, cond) => {
            if cond < n {
                Ok(
                    InstrLowering::CondBranch {
                        ty: llvm_type(&locals[cond]),
                        cond: cond,
                        then_label: then_label,
                        else_label: else_label,
                    },
                )
            } else {
                Err(LoweringError::Malformed)
            }
        },
        Bytecode::Jump(label) => Ok(InstrLowering::Jump { label: label }),
        Bytecode::Label(label) => Ok(InstrLowering::Label { label: label }),
        Bytecode::Abort(local) => {
            if local < n {
                Ok(InstrLowering::RuntimeCall(RtCall::Abort(local)))
            } else {
                Err(LoweringError::Malformed)
            }
        },
        Bytecode::Other => Err(LoweringError::Unimplemented),
    }
}

/// The LLVM types of the locals of a function, in order; `Unimplemented`
/// where a local has a type that the translator cannot hold yet.
pub fn lower_locals(locals: &Vec<MoveType>) -> (r: Result<Vec<LlvmType>, LoweringError>)
    ensures
        r is Ok <==> locals_have_llvm_types(locals@),
        r matches Ok(tys) ==> tys@.len() == locals@.len() && forall|i: int|
            0 <= i < locals@.len() ==> tys@[i] == llvm_type_of(#[trigger] locals@[i]),
{
    let mut tys: Vec<LlvmType> = Vec::new();
    let mut i: usize = 0;
    while i < locals.len()
        invariant
            0 <= i <= locals.len(),
            tys@.len() == i,
            forall|j: int| 0 <= j < i ==> has_llvm_type(#[trigger] locals@[j]),
            forall|j: int| 0 <= j < i ==> tys@[j] == llvm_type_of(#[trigger] locals@[j]),
        decreases locals.len() - i,
    {
        if !can_hold(&locals[i]) {
            return Err(LoweringError::Unimplemented);
        }
        tys.push(llvm_type(&locals[i]));
        i = i + 1;
    }
    Ok(tys)
}

/// Whether the type can be held in an LLVM type.
pub fn can_hold(t: &MoveType) -> (r: bool)
    ensures
        r == has_llvm_type(*t),
    decreases t,
{
    match t {
        MoveType::Primitive(p) => match p {
            PrimitiveType::Bool | PrimitiveType::U8 | PrimitiveType::U16 | PrimitiveType::U32
            | PrimitiveType::U64 | PrimitiveType::U128 | PrimitiveType::U256 => true,
            _ => false,
        },
        MoveType::Reference(_, r) => can_hold(r),
        MoveType::Other => false,
    }
}

/// The bit width of the LLVM integer constant of a Move constant.
pub open spec fn constant_lowering_width(c: ConstantLowering) -> nat {
    match c {
        ConstantLowering::Int { width, .. } => width as nat,
        ConstantLowering::Int256(_) => 256,
    }
}

/// The number that an LLVM integer constant holds.
pub open spec fn constant_lowering_value(c: ConstantLowering) -> int {
    match c {
        ConstantLowering::Int { value, .. } => value as int,
        ConstantLowering::Int256(v) => u256_value(v),
    }
}

/// The number that a Move constant denotes (`false` is 0, `true` is 1).
pub open spec fn constant_value(c: Constant) -> int {
    match c {
        Constant::Bool(b) => if b {
            1
        } else {
            0
        },
        Constant::U8(v) => v as int,
        Constant::U16(v) => v as int,
        Constant::U32(v) => v as int,
        Constant::U64(v) => v as int,
        Constant::U128(v) => v as int,
        Constant::U256(v) => u256_value(v),
        Constant::Other => 0,
    }
}

/// The bit width of the type of a Move constant.
pub open spec fn constant_type_width(c: Constant) -> nat {
    match c {
        Constant::Bool(_) => 1,
        Constant::U8(_) => 8,
        Constant::U16(_) => 16,
        Constant::U32(_) => 32,
        Constant::U64(_) => 64,
        Constant::U128(_) => 128,
        Constant::U256(_) => 256,
        Constant::Other => 0,
    }
}

/// The Move type of a constant.
pub open spec fn constant_type(c: Constant) -> MoveType {
    match c {
        Constant::Bool(_) => MoveType::Primitive(PrimitiveType::Bool),
        Constant::U8(_) => MoveType::Primitive(PrimitiveType::U8),
        Constant::U16(_) => MoveType::Primitive(PrimitiveType::U16),
        Constant::U32(_) => MoveType::Primitive(PrimitiveType::U32),
        Constant::U64(_) => MoveType::Primitive(PrimitiveType::U64),
        Constant::U128(_) => MoveType::Primitive(PrimitiveType::U128),
        Constant::U256(_) => MoveType::Primitive(PrimitiveType::U256),
        Constant::Other => MoveType::Other,
    }
}

/// A constant is loaded at the width of its own type, so it fits the
/// slot of a local of that type: the LLVM constant's width is the bit
/// width of the constant's Move type and that type's LLVM type is the
/// integer type of that width.
pub proof fn constants_fit_their_type(c: Constant)
    requires
        c != Constant::Other,
    ensures
        constant_lowering_of(c) matches Ok(l) && has_bitwidth(constant_type(c))
            && constant_lowering_width(l) == bitwidth(constant_type(c)) && llvm_type_of(
            constant_type(c),
        ) == LlvmType::Int(constant_lowering_width(l) as u32),
{
}

/// Every supported constant is loaded as an LLVM constant of its type's
/// width that holds the same number, and that number fits the width.
pub proof fn constant_lowering_preserves_value(c: Constant)
    requires
        c != Constant::Other,
    ensures
        constant_lowering_of(c) matches Ok(l) && constant_lowering_width(l) == constant_type_width(
            c,
        ) && constant_lowering_value(l) == constant_value(c) && 0 <= constant_value(c) < pow2(
            constant_type_width(c),
        ),
{
    vstd::arithmetic::power2::lemma2_to64();
    vstd::arithmetic::power2::lemma_pow2_adds(64, 64);
    vstd::arithmetic::power2::lemma_pow2_adds(128, 128);
    match c {
        Constant::U256(v) => {
            let p = pow2(128) as int;
            assert(p == u128::MAX + 1);
            assert(pow2(256) == p * p);
            assert(0 <= v.high * p + v.low < p * p) by (nonlinear_arith)
                requires
                    0 <= v.high < p,
                    0 <= v.low < p,
            ;
        },
        _ => {},
    }
}

} // verus!
