//! Tristate numbers: which bits of a value are known.
use vstd::prelude::*;

verus! {

/// A value whose bits outside `mask` are those of `value`.
#[derive(Debug, Clone, Copy, PartialEq, Eq, Structural)]
pub struct Tnum {
    pub value: u64,
    pub mask: u64,
}

impl Tnum {
    pub open spec fn spec_unknown() -> Tnum {
        Tnum { value: 0, mask: u64::MAX }
    }

    /// No bit is known.
    #[verifier::when_used_as_spec(spec_unknown)]
    pub fn unknown() -> (r: Self)
        ensures
            r == Tnum::spec_unknown(),
    {
        Tnum { value: 0, mask: u64::MAX }
    }

    pub open spec fn spec_constant(v: u64) -> Tnum {
        Tnum { value: v, mask: 0 }
    }

    /// All bits are known.
    #[verifier::when_used_as_spec(spec_constant)]
    pub fn constant(v: u64) -> (r: Self)
        ensures
            r == Tnum::spec_constant(v),
    {
        Tnum { value: v, mask: 0 }
    }

    pub open spec fn spec_below(mask: u64) -> Tnum {
        Tnum { value: 0, mask }
    }

    /// Bits outside `mask` are zero.
    #[verifier::when_used_as_spec(spec_below)]
    pub fn below(mask: u64) -> (r: Self)
        ensures
            r == Tnum::spec_below(mask),
    {
        Tnum { value: 0, mask }
    }

    pub open spec fn spec_is_const(&self) -> bool {
        self.mask == 0
    }

    /// Whether all bits are known.
    #[verifier::when_used_as_spec(spec_is_const)]
    pub fn is_const(&self) -> (r: bool)
        ensures
            r == self.spec_is_const(),
    {
        self.mask == 0
    }
}

} // verus!
