use vstd::prelude::*;

verus! {

/// A boolean as uniform data holds it: a 32-bit integer, zero for false.
#[derive(Clone, Copy, PartialEq, Eq, PartialOrd, Ord, Hash, Debug, Structural)]
pub struct Bool(pub u32);

impl Default for Bool {
    /// False.
    fn default() -> (r: Self)
        ensures
            r.0 == 0,
    {
        Bool::from(false)
    }
}

impl From<bool> for Bool {
    /// One for true, zero for false.
    fn from(value: bool) -> (r: Self) {
        Bool(if value { 1 } else { 0 })
    }
}

impl vstd::std_specs::convert::FromSpecImpl<bool> for Bool {
    open spec fn obeys_from_spec() -> bool {
        true
    }

    open spec fn from_spec(value: bool) -> Self {
        Bool(if value { 1 } else { 0 })
    }
}

impl From<Bool> for bool {
    /// Whether the integer is not zero.
    fn from(value: Bool) -> (r: Self) {
        value.0 != 0
    }
}

impl vstd::std_specs::convert::FromSpecImpl<Bool> for bool {
    open spec fn obeys_from_spec() -> bool {
        true
    }

    open spec fn from_spec(value: Bool) -> bool {
        value.0 != 0
    }
}

/// A boolean survives the round trip through its uniform form.
pub proof fn lemma_bool_round_trip(b: bool)
    ensures
        <bool as vstd::std_specs::convert::FromSpec<Bool>>::from_spec(
            <Bool as vstd::std_specs::convert::FromSpec<bool>>::from_spec(b),
        ) == b,
{
}

} // verus!
