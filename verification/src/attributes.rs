use vstd::prelude::*;

verus! {

/// Where an LLVM attribute is attached: to the return value, to one of the
/// arguments (numbered from 0), or to the function itself.
#[derive(Copy, Clone, Debug, PartialEq, Eq, Structural)]
pub enum AttributePlace {
    ReturnValue,
    Argument(u32),
    Function,
}

/// The index that LLVM uses for an attribute place: 0 for the return value,
/// `1 + i` for argument `i`, and all bits set for the function itself.
pub open spec fn attribute_index(place: AttributePlace) -> int {
    match place {
        AttributePlace::ReturnValue => 0,
        AttributePlace::Argument(i) => 1 + i,
        AttributePlace::Function => u32::MAX as int,
    }
}

/// LLVM's numbering of attribute places: the return value is 0, the
/// arguments follow from 1 in order, and no two places share an index
/// (argument `u32::MAX - 1` would take the function's index, all bits set,
/// and is left out).
pub proof fn attribute_indices_number_places(a: AttributePlace, b: AttributePlace, i: u32)
    requires
        a matches AttributePlace::Argument(x) ==> x + 1 < u32::MAX,
        b matches AttributePlace::Argument(x) ==> x + 1 < u32::MAX,
        i + 1 < u32::MAX,
    ensures
        attribute_index(AttributePlace::ReturnValue) == 0,
        attribute_index(AttributePlace::Argument(0)) == 1,
        attribute_index(AttributePlace::Argument((i + 1) as u32)) == attribute_index(
            AttributePlace::Argument(i),
        ) + 1,
        a != b ==> attribute_index(a) != attribute_index(b),
{
}

impl AttributePlace {
    /// The LLVM attribute index of this place.
    pub fn as_uint(self) -> (r: u32)
        requires
            self matches AttributePlace::Argument(i) ==> i < u32::MAX,
        ensures
            r == attribute_index(self),
    {
        match self {
            AttributePlace::ReturnValue => 0,
            AttributePlace::Argument(i) => 1 + i,
            AttributePlace::Function => u32::MAX,
        }
    }
}


/// The kinds of attribute that the LLVM extension shim can create without a
/// value. Each kind has a fixed numeric code shared with the shim (see
/// [`AttributeKind::code`]).
#[derive(Copy, Clone, Debug, PartialEq, Eq, Structural)]
pub enum AttributeKind {
    AlwaysInline,
    ByVal,
    Cold,
    InlineHint,
    MinSize,
    Naked,
    NoAlias,
    NoCapture,
    NoInline,
    NonNull,
    NoRedZone,
    NoReturn,
    NoUnwind,
    OptimizeForSize,
    ReadOnly,
    SExt,
    StructRet,
    UWTable,
    ZExt,
    InReg,
    SanitizeThread,
    SanitizeAddress,
    SanitizeMemory,
    NonLazyBind,
    OptimizeNone,
    ReturnsTwice,
    ReadNone,
    InaccessibleMemOnly,
    SanitizeHWAddress,
    WillReturn,
    StackProtectReq,
    StackProtectStrong,
    StackProtect,
    NoUndef,
    SanitizeMemTag,
}

/// The numeric code of each attribute kind, in declaration order from 0.
pub open spec fn attribute_kind_code(kind: AttributeKind) -> u32 {
    match kind {
        AttributeKind::AlwaysInline => 0,
        AttributeKind::ByVal => 1,
        AttributeKind::Cold => 2,
        AttributeKind::InlineHint => 3,
        AttributeKind::MinSize => 4,
        AttributeKind::Naked => 5,
        AttributeKind::NoAlias => 6,
        AttributeKind::NoCapture => 7,
        AttributeKind::NoInline => 8,
        AttributeKind::NonNull => 9,
        AttributeKind::NoRedZone => 10,
        AttributeKind::NoReturn => 11,
        AttributeKind::NoUnwind => 12,
        AttributeKind::OptimizeForSize => 13,
        AttributeKind::ReadOnly => 14,
        AttributeKind::SExt => 15,
        AttributeKind::StructRet => 16,
        AttributeKind::UWTable => 17,
        AttributeKind::ZExt => 18,
        AttributeKind::InReg => 19,
        AttributeKind::SanitizeThread => 20,
        AttributeKind::SanitizeAddress => 21,
        AttributeKind::SanitizeMemory => 22,
        AttributeKind::NonLazyBind => 23,
        AttributeKind::OptimizeNone => 24,
        AttributeKind::ReturnsTwice => 25,
        AttributeKind::ReadNone => 26,
        AttributeKind::InaccessibleMemOnly => 27,
        AttributeKind::SanitizeHWAddress => 28,
        AttributeKind::WillReturn => 29,
        AttributeKind::StackProtectReq => 30,
        AttributeKind::StackProtectStrong => 31,
        AttributeKind::StackProtect => 32,
        AttributeKind::NoUndef => 33,
        AttributeKind::SanitizeMemTag => 34,
    }
}

impl AttributeKind {
    /// The numeric code that identifies this kind to the LLVM extension shim.
    pub fn code(self) -> (r: u32)
        ensures
            r == attribute_kind_code(self),
    {
        match self {
            AttributeKind::AlwaysInline => 0,
            AttributeKind::ByVal => 1,
            AttributeKind::Cold => 2,
            AttributeKind::InlineHint => 3,
            AttributeKind::MinSize => 4,
            AttributeKind::Naked => 5,
            AttributeKind::NoAlias => 6,
            AttributeKind::NoCapture => 7,
            AttributeKind::NoInline => 8,
            AttributeKind::NonNull => 9,
            AttributeKind::NoRedZone => 10,
            AttributeKind::NoReturn => 11,
            AttributeKind::NoUnwind => 12,
            AttributeKind::OptimizeForSize => 13,
            AttributeKind::ReadOnly => 14,
            AttributeKind::SExt => 15,
            AttributeKind::StructRet => 16,
            AttributeKind::UWTable => 17,
            AttributeKind::ZExt => 18,
            AttributeKind::InReg => 19,
            AttributeKind::SanitizeThread => 20,
            AttributeKind::SanitizeAddress => 21,
            AttributeKind::SanitizeMemory => 22,
            AttributeKind::NonLazyBind => 23,
            AttributeKind::OptimizeNone => 24,
            AttributeKind::ReturnsTwice => 25,
            AttributeKind::ReadNone => 26,
            AttributeKind::InaccessibleMemOnly => 27,
            AttributeKind::SanitizeHWAddress => 28,
            AttributeKind::WillReturn => 29,
            AttributeKind::StackProtectReq => 30,
            AttributeKind::StackProtectStrong => 31,
            AttributeKind::StackProtect => 32,
            AttributeKind::NoUndef => 33,
            AttributeKind::SanitizeMemTag => 34,
        }
    }
}

/// The codes of distinct attribute kinds are distinct, and all lie below
/// 35.
pub proof fn attribute_kind_codes_are_distinct(a: AttributeKind, b: AttributeKind)
    ensures
        attribute_kind_code(a) < 35,
        attribute_kind_code(a) == attribute_kind_code(b) ==> a == b,
{
}

} // verus!
