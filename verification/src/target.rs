use vstd::prelude::*;

verus! {

/// The machines that the compiler can emit object code for.
#[derive(Copy, Clone, Debug, PartialEq, Eq, Structural)]
pub enum Target {
    Solana,
}

impl Target {
    /// The LLVM target triple of this target.
    pub fn triple(&self) -> (r: &'static str)
        ensures
            *self == Target::Solana ==> r@ == "sbf-solana-solana"@,
    {
        match self {
            Target::Solana => "sbf-solana-solana",
        }
    }

    /// The LLVM CPU name of this target.
    pub fn llvm_cpu(&self) -> (r: &'static str)
        ensures
            *self == Target::Solana ==> r@ == "generic"@,
    {
        match self {
            Target::Solana => "generic",
        }
    }

    /// The LLVM feature string of this target.
    pub fn llvm_features(&self) -> (r: &'static str)
        ensures
            *self == Target::Solana ==> r@ == "+solana"@,
    {
        match self {
            Target::Solana => "+solana",
        }
    }
}

} // verus!
