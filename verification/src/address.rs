//! Identities: makers, takers, asset types, records and vaults are all named
//! by 32-byte addresses.

use vstd::prelude::*;

verus! {

/// A 32-byte identity. Its view is the sequence of its bytes.
#[derive(Clone, Copy, Debug, Eq)]
pub struct Address {
    pub bytes: [u8; 32],
}

impl View for Address {
    type V = Seq<u8>;

    open spec fn view(&self) -> Seq<u8> {
        self.bytes@
    }
}

impl PartialEq for Address {
    fn eq(&self, other: &Address) -> (same: bool) {
        let mut i: usize = 0;
        while i < 32
            invariant
                i <= 32,
                forall|k: int| 0 <= k < i ==> self.bytes[k] == other.bytes[k],
            decreases 32 - i,
        {
            if self.bytes[i] != other.bytes[i] {
                return false;
            }
            i += 1;
        }
        assert(self.bytes =~= other.bytes);
        true
    }
}

impl vstd::std_specs::cmp::PartialEqSpecImpl for Address {
    open spec fn obeys_eq_spec() -> bool {
        true
    }

    open spec fn eq_spec(&self, other: &Address) -> bool {
        *self == *other
    }
}

impl Address {
    /// The address whose bytes are `bytes`; arbitrary unless `bytes` has
    /// exactly 32 elements.
    pub open spec fn of(bytes: Seq<u8>) -> Address {
        choose|a: Address| a@ == bytes
    }

    /// Two addresses with the same bytes are the same address.
    pub proof fn lemma_view_injective(a: Address, b: Address)
        requires
            a@ == b@,
        ensures
            a == b,
    {
        assert(a.bytes =~= b.bytes);
    }

    /// `of` inverts the view.
    pub proof fn lemma_of_view(a: Address)
        ensures
            Address::of(a@) == a,
    {
        let b = Address::of(a@);
        assert(b@ == a@);
        Self::lemma_view_injective(b, a);
    }

    pub fn new(bytes: [u8; 32]) -> (a: Address)
        ensures
            a.bytes == bytes,
    {
        Address { bytes }
    }

    /// The bytes of the address, in order.
    pub fn to_vec(&self) -> (v: Vec<u8>)
        ensures
            v@ == self@,
    {
        let mut v: Vec<u8> = Vec::new();
        let mut i: usize = 0;
        while i < 32
            invariant
                i <= 32,
                v@ == self@.subrange(0, i as int),
            decreases 32 - i,
        {
            v.push(self.bytes[i]);
            assert(v@ == self@.subrange(0, i + 1));
            i += 1;
        }
        assert(v@ == self@);
        v
    }
}

} // verus!
