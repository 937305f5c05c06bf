use vstd::prelude::*;

verus! {

/// The primitive types of the Move model.
#[derive(Copy, Clone, Debug, PartialEq, Eq, Structural)]
pub enum PrimitiveType {
    Bool,
    U8,
    U16,
    U32,
    U64,
    U128,
    U256,
    Address,
    Signer,
    Num,
    Range,
    EventStore,
}

/// A Move type as far as the translator reads it: a primitive type, a
/// reference (mutable or not) to another type, or any other type (vectors,
/// structs, type parameters, tuples, ...), which the translator does not
/// handle yet.
#[derive(Debug, PartialEq, Eq)]
pub enum MoveType {
    Primitive(PrimitiveType),
    Reference(bool, Box<MoveType>),
    Other,
}

/// An LLVM type as the translator builds it: `void`, an integer type of the
/// given number of bits, or a pointer to a type.
#[derive(Debug, PartialEq, Eq)]
pub enum LlvmType {
    Void,
    Int(u32),
    Ptr(Box<LlvmType>),
}

/// The bit width of a primitive type that has one: 1 for `bool`, 8 to 256
/// for the unsigned integer types.
pub open spec fn primitive_width(p: PrimitiveType) -> Option<nat> {
    match p {
        PrimitiveType::Bool => Some(1),
        PrimitiveType::U8 => Some(8),
        PrimitiveType::U16 => Some(16),
        PrimitiveType::U32 => Some(32),
        PrimitiveType::U64 => Some(64),
        PrimitiveType::U128 => Some(128),
        PrimitiveType::U256 => Some(256),
        _ => None,
    }
}

/// The type is `bool` or one of the fixed-width unsigned integer types.
pub open spec fn has_bitwidth(t: MoveType) -> bool {
    t matches MoveType::Primitive(p) && primitive_width(p) is Some
}

/// The bit width of a type for which `has_bitwidth` holds.
pub open spec fn bitwidth(t: MoveType) -> nat
    recommends
        has_bitwidth(t),
{
    match t {
        MoveType::Primitive(p) => primitive_width(p).unwrap(),
        _ => 0,
    }
}

/// The type can be given an LLVM type: it is `bool`, a fixed-width integer,
/// or a (possibly nested) reference to one.
pub open spec fn has_llvm_type(t: MoveType) -> bool
    decreases t,
{
    match t {
        MoveType::Primitive(p) => primitive_width(p) is Some,
        MoveType::Reference(_, r) => has_llvm_type(*r),
        MoveType::Other => false,
    }
}

/// The LLVM type of a Move type: an integer type of the type's bit width,
/// or a pointer to the LLVM type of the referent.
pub open spec fn llvm_type_of(t: MoveType) -> LlvmType
    decreases t,
{
    match t {
        MoveType::Primitive(p) => LlvmType::Int(primitive_width(p).unwrap_or(0) as u32),
        MoveType::Reference(_, r) => LlvmType::Ptr(Box::new(llvm_type_of(*r))),
        MoveType::Other => LlvmType::Void,
    }
}

/// The type is `bool`.
pub open spec fn is_bool_type(t: MoveType) -> bool {
    t == MoveType::Primitive(PrimitiveType::Bool)
}

/// The type is a number in the Move model: a fixed-width unsigned integer
/// or the unbounded `num` of specifications.
pub open spec fn is_number_type(t: MoveType) -> bool {
    match t {
        MoveType::Primitive(p) => match p {
            PrimitiveType::U8 | PrimitiveType::U16 | PrimitiveType::U32 | PrimitiveType::U64
            | PrimitiveType::U128 | PrimitiveType::U256 | PrimitiveType::Num => true,
            _ => false,
        },
        _ => false,
    }
}

/// The bit width of a primitive type, or `None` where it has none.
fn primitive_bitwidth(p: PrimitiveType) -> (r: Option<u64>)
    ensures
        r matches Some(w) ==> primitive_width(p) == Some(w as nat),
        r is None <==> primitive_width(p) is None,
{
    match p {
        PrimitiveType::Bool => Some(1),
        PrimitiveType::U8 => Some(8),
        PrimitiveType::U16 => Some(16),
        PrimitiveType::U32 => Some(32),
        PrimitiveType::U64 => Some(64),
        PrimitiveType::U128 => Some(128),
        PrimitiveType::U256 => Some(256),
        _ => None,
    }
}

/// The LLVM type that a Move value of type `mty` is held in.
pub fn llvm_type(mty: &MoveType) -> (r: LlvmType)
    requires
        has_llvm_type(*mty),
    ensures
        r == llvm_type_of(*mty),
    decreases mty,
{
    match mty {
        MoveType::Primitive(p) => {
            let w = primitive_bitwidth(*p);
            match w {
                Some(w) => LlvmType::Int(w as u32),
                None => LlvmType::Void,
            }
        },
        MoveType::Reference(_, referent) => {
            let inner = llvm_type(referent);
            LlvmType::Ptr(Box::new(inner))
        },
        MoveType::Other => LlvmType::Void,
    }
}

/// The number of bits of a `bool` or fixed-width integer type.
pub fn get_bitwidth(mty: &MoveType) -> (r: u64)
    requires
        has_bitwidth(*mty),
    ensures
        r == bitwidth(*mty),
{
    match mty {
        MoveType::Primitive(p) => match primitive_bitwidth(*p) {
            Some(w) => w,
            None => 0,
        },
        _ => 0,
    }
}

/// Whether the type is `bool`.
pub fn is_bool(mty: &MoveType) -> (r: bool)
    ensures
        r == is_bool_type(*mty),
{
    match mty {
        MoveType::Primitive(PrimitiveType::Bool) => true,
        _ => false,
    }
}

/// Whether the type is a number of the Move model.
pub fn is_number(mty: &MoveType) -> (r: bool)
    ensures
        r == is_number_type(*mty),
{
    match mty {
        MoveType::Primitive(p) => match p {
            PrimitiveType::U8 | PrimitiveType::U16 | PrimitiveType::U32 | PrimitiveType::U64
            | PrimitiveType::U128 | PrimitiveType::U256 | PrimitiveType::Num => true,
            _ => false,
        },
        _ => false,
    }
}

/// For every `bool` or fixed-width integer type, the LLVM type is the
/// integer type of exactly its bit width.
pub proof fn llvm_type_of_sized_is_int_of_bitwidth(t: MoveType)
    requires
        has_bitwidth(t),
    ensures
        has_llvm_type(t),
        llvm_type_of(t) == LlvmType::Int(bitwidth(t) as u32),
        1 <= bitwidth(t) <= 256,
{
}

} // verus!
