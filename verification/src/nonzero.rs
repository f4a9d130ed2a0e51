use vstd::prelude::*;

verus! {

/// A 32-bit count that is known not to be zero.
#[derive(Clone, Copy, Debug, PartialEq, Eq)]
pub struct NonZeroU32 {
    value: u32,
}

impl View for NonZeroU32 {
    type V = nat;

    closed spec fn view(&self) -> nat {
        self.value as nat
    }
}

impl NonZeroU32 {
    #[verifier::type_invariant]
    spec fn wf(&self) -> bool {
        self.value != 0
    }

    /// Wraps `value`, or returns `None` when it is zero.
    pub fn new(value: u32) -> (r: Option<Self>)
        ensures
            r is None <==> value == 0,
            r matches Some(count) ==> count@ == value,
    {
        if value == 0 {
            None
        } else {
            Some(NonZeroU32 { value })
        }
    }

    /// The wrapped count.
    pub fn get(self) -> (r: u32)
        ensures
            r == self@,
            r > 0,
    {
        proof {
            use_type_invariant(&self);
        }
        self.value
    }
}

} // verus!
