//! Plain value types shared by both environment backends.

use vstd::prelude::*;

verus! {

/// How many bytes an account address has.
pub const ADDRESS_LENGTH: usize = 20;

/// An account address.
#[derive(Clone, Copy, Debug)]
pub struct Address(pub [u8; ADDRESS_LENGTH]);

impl PartialEq for Address {
    fn eq(&self, other: &Address) -> (r: bool) {
        let mut i: usize = 0;
        while i < ADDRESS_LENGTH
            invariant
                i <= ADDRESS_LENGTH,
                forall|j: int| 0 <= j < i ==> self.0@[j] == other.0@[j],
            decreases ADDRESS_LENGTH - i,
        {
            if self.0[i] != other.0[i] {
                proof {
                    assert(self.0@[i as int] != other.0@[i as int]);
                }
                return false;
            }
            i = i + 1;
        }
        proof {
            assert(self.0@ =~= other.0@);
        }
        true
    }
}

impl Eq for Address {

}

impl vstd::std_specs::cmp::PartialEqSpecImpl for Address {
    open spec fn obeys_eq_spec() -> bool {
        true
    }

    open spec fn eq_spec(&self, other: &Address) -> bool {
        self.0@ == other.0@
    }
}

impl Address {
    /// The address with every byte equal to `b`.
    pub fn repeat(b: u8) -> (r: Address)
        ensures
            r.0@ == Seq::new(ADDRESS_LENGTH as nat, |i: int| b),
    {
        let r = Address([b; ADDRESS_LENGTH]);
        proof {
            assert(r.0@ =~= Seq::new(ADDRESS_LENGTH as nat, |i: int| b));
        }
        r
    }
}

/// The recoverable and invocation-fatal failures of an environment backend.
#[derive(PartialEq, Eq, Structural, Clone, Copy, Debug)]
pub enum EnvError {
    /// A storage probe reported zero size for the key.
    UnableToReadFromStorage,
    /// The invocation's raw input is too short for its mode.
    UnableToReadCallData,
    /// A cross-contract call returned a non-zero host status.
    FailToCallRemoteContract,
}

} // verus!
