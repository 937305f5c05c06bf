use vstd::prelude::*;

use crate::attributes::AttributeKind;
use crate::function::{Bytecode, RtCall};
use crate::lowering::LoweringError;
use crate::types::{has_llvm_type, llvm_type, llvm_type_of, LlvmType, MoveType};
use crate::function::can_hold;
use vstd::string::StringExecFns;

verus! {

/// The LLVM signature of a declared function.
#[derive(Debug)]
pub struct FunctionSignature {
    pub return_type: LlvmType,
    pub params: Vec<LlvmType>,
}

/// The function can be declared: it has at most one result and every
/// result and parameter type can be held in an LLVM type.
pub open spec fn declarable(results: Seq<MoveType>, params: Seq<MoveType>) -> bool {
    &&& results.len() <= 1
    &&& results.len() == 1 ==> has_llvm_type(results[0])
    &&& forall|i: int| 0 <= i < params.len() ==> has_llvm_type(#[trigger] params[i])
}

/// The LLVM signature of a Move function with the given return and
/// parameter types: `void` or the LLVM type of its one result, and the
/// LLVM types of its parameters in order. `Unimplemented` for functions
/// with several results or with types that the translator cannot hold.
pub fn function_signature(results: &Vec<MoveType>, params: &Vec<MoveType>) -> (r: Result<
    FunctionSignature,
    LoweringError,
>)
    ensures
        r is Ok <==> declarable(results@, params@),
        r is Err ==> r == Err::<FunctionSignature, LoweringError>(LoweringError::Unimplemented),
        r matches Ok(sig) ==> {
            &&& sig.return_type == if results@.len() == 0 {
                LlvmType::Void
            } else {
                llvm_type_of(results@[0])
            }
            &&& sig.params@.len() == params@.len()
            &&& forall|i: int|
                0 <= i < params@.len() ==> sig.params@[i] == llvm_type_of(#[trigger] params@[i])
        },
{
    let return_type = if results.len() == 0 {
        LlvmType::Void
    } else if results.len() == 1 {
        if !can_hold(&results[0]) {
            return Err(LoweringError::Unimplemented);
        }
        llvm_type(&results[0])
    } else {
        return Err(LoweringError::Unimplemented);
    };
    let mut tys: Vec<LlvmType> = Vec::new();
    let mut i: usize = 0;
    while i < params.len()
        invariant
            0 <= i <= params.len(),
            results@.len() <= 1,
            results@.len() == 1 ==> has_llvm_type(results@[0]),
            tys@.len() == i,
            forall|j: int| 0 <= j < i ==> has_llvm_type(#[trigger] params@[j]),
            forall|j: int| 0 <= j < i ==> tys@[j] == llvm_type_of(#[trigger] params@[j]),
        decreases params.len() - i,
    {
        if !can_hold(&params[i]) {
            return Err(LoweringError::Unimplemented);
        }
        tys.push(llvm_type(&params[i]));
        i = i + 1;
    }
    Ok(FunctionSignature { return_type, params: tys })
}

/// A function of the model: the index of its module and of its name.
pub type FunctionId = (usize, usize);

/// The order of function identities: by module, then by name.
pub open spec fn id_lt(a: FunctionId, b: FunctionId) -> bool {
    a.0 < b.0 || (a.0 == b.0 && a.1 < b.1)
}

/// The identities are in strictly increasing order, hence distinct.
pub open spec fn strictly_increasing(s: Seq<FunctionId>) -> bool {
    forall|i: int, j: int| 0 <= i < j < s.len() ==> id_lt(#[trigger] s[i], #[trigger] s[j])
}

/// The function is called by one of the module's functions and lives in
/// another module.
pub open spec fn is_foreign_callee(own_module: usize, called: Seq<Seq<FunctionId>>, f: FunctionId) -> bool {
    f.0 != own_module && exists|i: int| 0 <= i < called.len() && #[trigger] called[i].contains(f)
}

/// Inserts an identity into a strictly increasing sequence, keeping it
/// strictly increasing.
fn insert_sorted(v: &mut Vec<FunctionId>, x: FunctionId)
    requires
        strictly_increasing(old(v)@),
    ensures
        strictly_increasing(final(v)@),
        forall|y: FunctionId| final(v)@.contains(y) <==> (old(v)@.contains(y) || y == x),
{
    let mut i: usize = 0;
    while i < v.len() && precedes(v[i], x)
        invariant
            0 <= i <= v.len(),
            v@ == old(v)@,
            strictly_increasing(v@),
            forall|j: int| 0 <= j < i ==> id_lt(#[trigger] v@[j], x),
        decreases v.len() - i,
    {
        i = i + 1;
    }
    if i < v.len() && v[i].0 == x.0 && v[i].1 == x.1 {
        assert(v@[i as int] == x);
        assert(forall|y: FunctionId| v@.contains(y) <==> (old(v)@.contains(y) || y == x));
        return;
    }
    proof {
        assert forall|j: int| i <= j < v@.len() implies id_lt(x, #[trigger] v@[j]) by {
            assert(!id_lt(v@[i as int], x));
            if j > i {
                assert(id_lt(v@[i as int], v@[j]));
            }
        }
    }
    let ghost before = v@;
    assert(before == old(v)@);
    v.insert(i, x);
    proof {
        assert forall|y: FunctionId| v@.contains(y) <==> (before.contains(y) || y == x) by {
            if v@.contains(y) {
                let k = choose|k: int| 0 <= k < v@.len() && #[trigger] v@[k] == y;
                if k < i {
                    assert(before[k] == y);
                } else if k > i {
                    assert(before[k - 1] == y);
                }
            }
            if before.contains(y) {
                let k = choose|k: int| 0 <= k < before.len() && #[trigger] before[k] == y;
                if k < i {
                    assert(v@[k] == y);
                } else {
                    assert(v@[k + 1] == y);
                }
            }
            if y == x {
                assert(v@[i as int] == x);
            }
        }
        assert(forall|y: FunctionId| v@.contains(y) <==> (old(v)@.contains(y) || y == x));
    }
}

/// Whether identity `a` comes before identity `b`.
fn precedes(a: FunctionId, b: FunctionId) -> (r: bool)
    ensures
        r == id_lt(a, b),
{
    a.0 < b.0 || (a.0 == b.0 && a.1 < b.1)
}

/// The functions of other modules that the module's functions call, each
/// once, in increasing order of identity; `called[i]` lists the functions
/// that the `i`-th function of the module calls.
pub fn foreign_callees(own_module: usize, called: &Vec<Vec<FunctionId>>) -> (r: Vec<FunctionId>)
    ensures
        strictly_increasing(r@),
        forall|f: FunctionId|
            r@.contains(f) <==> is_foreign_callee(own_module, called@.map_values(|c: Vec<FunctionId>| c@), f),
{
    let ghost calls = called@.map_values(|c: Vec<FunctionId>| c@);
    let mut r: Vec<FunctionId> = Vec::new();
    let mut i: usize = 0;
    while i < called.len()
        invariant
            0 <= i <= called.len(),
            calls == called@.map_values(|c: Vec<FunctionId>| c@),
            strictly_increasing(r@),
            forall|f: FunctionId|
                r@.contains(f) <==> (f.0 != own_module && exists|k: int|
                    0 <= k < i && #[trigger] calls[k].contains(f)),
        decreases called.len() - i,
    {
        let fns = &called[i];
        let mut j: usize = 0;
        while j < fns.len()
            invariant
                0 <= i < called.len(),
                0 <= j <= fns.len(),
                fns@ == calls[i as int],
                calls == called@.map_values(|c: Vec<FunctionId>| c@),
                strictly_increasing(r@),
                forall|f: FunctionId|
                    r@.contains(f) <==> (f.0 != own_module && ((exists|k: int|
                        0 <= k < i && #[trigger] calls[k].contains(f)) || fns@.take(j as int).contains(f))),
            decreases fns.len() - j,
        {
            let f = fns[j];
            if f.0 != own_module {
                insert_sorted(&mut r, f);
            }
            proof {
                assert(fns@.take(j + 1) == fns@.take(j as int).push(f));
                assert forall|g: FunctionId| fns@.take(j + 1).contains(g) <==> (fns@.take(j as int).contains(g) || g == f) by {
                    if fns@.take(j + 1).contains(g) {
                        let k = choose|k: int| 0 <= k < j + 1 && #[trigger] fns@.take(j + 1)[k] == g;
                        if k < j {
                            assert(fns@.take(j as int)[k] == g);
                        }
                    }
                    if fns@.take(j as int).contains(g) {
                        let k = choose|k: int| 0 <= k < j && #[trigger] fns@.take(j as int)[k] == g;
                        assert(fns@.take(j + 1)[k] == g);
                    }
                    if g == f {
                        assert(fns@.take(j + 1)[j as int] == g);
                    }
                }
            }
            j = j + 1;
        }
        proof {
            assert(fns@.take(fns@.len() as int) == fns@);
            assert forall|f: FunctionId| r@.contains(f) <==> (f.0 != own_module && exists|k: int|
                0 <= k < i + 1 && #[trigger] calls[k].contains(f)) by {
                if f.0 != own_module && fns@.contains(f) {
                    assert(calls[i as int].contains(f));
                }
                if exists|k: int| 0 <= k < i + 1 && #[trigger] calls[k].contains(f) {
                    let k = choose|k: int| 0 <= k < i + 1 && #[trigger] calls[k].contains(f);
                    if k == i {
                        assert(fns@.contains(f));
                    }
                }
            }
        }
        i = i + 1;
    }
    r
}

/// The labels of a code sequence, in the order in which they occur.
pub open spec fn labels_of(code: Seq<Bytecode>) -> Seq<usize>
    decreases code.len(),
{
    if code.len() == 0 {
        seq![]
    } else {
        labels_of(code.drop_last()) + match code.last() {
            Bytecode::Label(l) => seq![l],
            _ => seq![],
        }
    }
}

/// The labels of a code sequence are exactly those of its `Label`
/// instructions: each such instruction's label is among them, and each of
/// them is the label of such an instruction.
pub proof fn labels_are_the_code_labels(code: Seq<Bytecode>)
    ensures
        forall|i: int|
            0 <= i < code.len() && #[trigger] code[i] is Label ==> labels_of(code).contains(
                code[i]->Label_0,
            ),
        forall|k: int|
            #![trigger labels_of(code)[k]]
            0 <= k < labels_of(code).len() ==> exists|i: int|
                0 <= i < code.len() && #[trigger] code[i] == Bytecode::Label(labels_of(code)[k]),
    decreases code.len(),
{
    if code.len() > 0 {
        let init = code.drop_last();
        labels_are_the_code_labels(init);
        let tail: Seq<usize> = match code.last() {
            Bytecode::Label(l) => seq![l],
            _ => seq![],
        };
        assert(labels_of(code) == labels_of(init) + tail);
        assert forall|i: int| 0 <= i < code.len() && #[trigger] code[i] is Label implies labels_of(code).contains(
            code[i]->Label_0,
        ) by {
            if i < init.len() {
                assert(init[i] == code[i]);
                let k = choose|k: int| 0 <= k < labels_of(init).len() && labels_of(init)[k] == code[i]->Label_0;
                assert(labels_of(code)[k] == code[i]->Label_0);
            } else {
                assert(labels_of(code)[labels_of(code).len() - 1] == code[i]->Label_0);
            }
        }
        assert forall|k: int| #![trigger labels_of(code)[k]] 0 <= k < labels_of(code).len() implies exists|i: int|
            0 <= i < code.len() && #[trigger] code[i] == Bytecode::Label(labels_of(code)[k]) by {
            if k < labels_of(init).len() {
                assert(labels_of(code)[k] == labels_of(init)[k]);
                let i = choose|i: int| 0 <= i < init.len() && #[trigger] init[i] == Bytecode::Label(labels_of(init)[k]);
                assert(code[i] == init[i]);
            } else {
                assert(code[code.len() - 1] == Bytecode::Label(labels_of(code)[k]));
            }
        }
    }
}

/// The labels of the function's code, in order: the translator creates
/// one basic block for each, after the entry block.
pub fn block_labels(code: &Vec<Bytecode>) -> (r: Vec<usize>)
    ensures
        r@ == labels_of(code@),
        forall|i: int|
            0 <= i < code@.len() && #[trigger] code@[i] is Label ==> r@.contains(code@[i]->Label_0),
        forall|k: int|
            #![trigger r@[k]]
            0 <= k < r@.len() ==> exists|i: int|
                0 <= i < code@.len() && #[trigger] code@[i] == Bytecode::Label(r@[k]),
{
    proof {
        labels_are_the_code_labels(code@);
    }
    let mut r: Vec<usize> = Vec::new();
    let mut i: usize = 0;
    while i < code.len()
        invariant
            0 <= i <= code.len(),
            r@ == labels_of(code@.take(i as int)),
        decreases code.len() - i,
    {
        assert(code@.take(i + 1).drop_last() == code@.take(i as int));
        match &code[i] {
            Bytecode::Label(l) => r.push(*l),
            _ => {},
        }
        i = i + 1;
    }
    assert(code@.take(code@.len() as int) == code@);
    r
}

/// A function of the Move run-time library as the translator declares it.
#[derive(Debug)]
pub struct RuntimeFunction {
    pub name: String,
    pub return_type: LlvmType,
    pub param_types: Vec<LlvmType>,
    pub attributes: Vec<AttributeKind>,
}

/// The declaration of the run-time function that a run-time call invokes:
/// `move_rt_abort`, returning nothing, taking a 64-bit code, and marked as
/// never returning.
pub fn runtime_function(rtcall: &RtCall) -> (r: RuntimeFunction)
    ensures
        r.name@ == "move_rt_abort"@,
        r.return_type == LlvmType::Void,
        r.param_types@ == seq![LlvmType::Int(64)],
        r.attributes@ == seq![AttributeKind::NoReturn],
{
    let suffix = match rtcall {
        RtCall::Abort(_) => "abort",
    };
    let mut name = String::from_str("move_rt_");
    name.append(suffix);
    proof {
        reveal_strlit("move_rt_");
        reveal_strlit("abort");
        reveal_strlit("move_rt_abort");
        assert(name@ =~= "move_rt_abort"@);
    }
    let mut param_types: Vec<LlvmType> = Vec::new();
    param_types.push(LlvmType::Int(64));
    let mut attributes: Vec<AttributeKind> = Vec::new();
    attributes.push(AttributeKind::NoReturn);
    RuntimeFunction { name, return_type: LlvmType::Void, param_types, attributes }
}

/// The value passed to the run-time abort function: a local that holds the
/// abort code, or a fixed code.
#[derive(Copy, Clone, Debug, PartialEq, Eq, Structural)]
pub enum AbortArgument {
    Local(usize),
    Code(u64),
}

/// What an explicit abort passes to the run-time abort function: the local
/// that holds the abort code.
pub fn runtime_call_argument(rtcall: &RtCall) -> (r: AbortArgument)
    ensures
        *rtcall matches RtCall::Abort(l) && r == AbortArgument::Local(l),
{
    match rtcall {
        RtCall::Abort(l) => AbortArgument::Local(*l),
    }
}

/// How a failed dynamic check is emitted: the current block branches on
/// the check to a new block `then_bb`, which calls the run-time abort
/// function with the arithmetic error code and ends as unreachable, or to
/// a new block `join_bb`, where emission continues.
#[derive(Copy, Clone, Debug, PartialEq, Eq)]
pub struct CheckFailureLowering {
    pub then_block: &'static str,
    pub join_block: &'static str,
    pub abort: AbortArgument,
}

/// The status code of Move's arithmetic error.
///
/// Trusted: the value of `move_core_types::vm_status::StatusCode::ARITHMETIC_ERROR`
/// as a `u64`; the crate's source declares this variant with the
/// discriminant 4017 (`vm_status.rs`, `#[repr(u64)]`).
#[verifier::external_body]
fn arithmetic_error_status() -> (r: u64)
    ensures
        r == 4017,
{
    move_core_types::vm_status::StatusCode::ARITHMETIC_ERROR as u64
}

/// How every failed dynamic check is emitted.
pub fn check_failure_lowering() -> (r: CheckFailureLowering)
    ensures
        r.then_block@ == "then_bb"@,
        r.join_block@ == "join_bb"@,
        r.abort == AbortArgument::Code(4017),
{
    CheckFailureLowering {
        then_block: "then_bb",
        join_block: "join_bb",
        abort: AbortArgument::Code(arithmetic_error_status()),
    }
}

} // verus!
