//! Twenty-byte account addresses.

use vstd::prelude::*;

verus! {

/// An account address: twenty bytes, most significant first.
#[derive(Clone, Copy, Debug, PartialEq, Eq)]
pub struct Address(pub [u8; 20]);

impl View for Address {
    type V = Seq<u8>;

    open spec fn view(&self) -> Seq<u8> {
        self.0@
    }
}

/// The twenty zero bytes of the zero address.
pub open spec fn zero_address() -> Seq<u8> {
    Seq::new(20, |i: int| 0u8)
}

impl Address {
    /// The zero address.
    pub fn zero() -> (a: Address)
        ensures
            a@ == zero_address(),
    {
        let a = Address([0u8; 20]);
        assert(a@ =~= zero_address());
        a
    }

    /// Whether every byte of the address is zero.
    pub fn is_zero(&self) -> (r: bool)
        ensures
            r == (self@ == zero_address()),
    {
        let mut i: usize = 0;
        while i < 20
            invariant
                i <= 20,
                self@.len() == 20,
                forall|j: int| 0 <= j < i ==> self@[j] == 0u8,
            decreases 20 - i,
        {
            if self.0[i] != 0 {
                assert(self@[i as int] != zero_address()[i as int]);
                return false;
            }
            i += 1;
        }
        assert(self@ =~= zero_address());
        true
    }

    /// Whether the two addresses have the same bytes.
    pub fn same_as(&self, other: &Address) -> (r: bool)
        ensures
            r == (self@ == other@),
    {
        let mut i: usize = 0;
        while i < 20
            invariant
                i <= 20,
                self@.len() == 20,
                other@.len() == 20,
                forall|j: int| 0 <= j < i ==> self@[j] == other@[j],
            decreases 20 - i,
        {
            if self.0[i] != other.0[i] {
                assert(self@[i as int] != other@[i as int]);
                return false;
            }
            i += 1;
        }
        assert(self@ =~= other@);
        true
    }
}

} // verus!
