use vstd::prelude::*;

verus! {

/// A 20-byte account identifier.
#[derive(Clone, Copy, Debug, PartialEq, Eq)]
pub struct Address {
    pub bytes: [u8; 20],
}

impl Address {
    /// The identifier's bytes.
    pub open spec fn bytes_view(self) -> Seq<u8> {
        self.bytes@
    }

    /// The address made of `bytes`.
    pub fn from_bytes(bytes: [u8; 20]) -> (r: Address)
        ensures
            r.bytes_view() == bytes@,
    {
        Address { bytes }
    }

    /// The distinguished all-zero address, used as the source of minted tokens.
    pub fn zero() -> (r: Address)
        ensures
            r == Address::zero_spec(),
    {
        let r = Address { bytes: [0u8; 20] };
        assert(r.is_zero());
        let ghost z = Address::zero_spec();
        assert(z.is_zero());
        assert(r.bytes =~= z.bytes);
        r
    }

    /// Every byte is zero.
    pub open spec fn is_zero(self) -> bool {
        forall|j: int| 0 <= j < 20 ==> self.bytes@[j] == 0
    }

    /// The zero address.
    pub open spec fn zero_spec() -> Address {
        choose|a: Address| a.is_zero()
    }

    /// Whether the two addresses are the same.
    pub fn same(&self, other: &Address) -> (r: bool)
        ensures
            r == (*self == *other),
    {
        let mut i: usize = 0;
        while i < 20
            invariant
                0 <= i <= 20,
                forall|j: int| 0 <= j < i ==> self.bytes@[j] == other.bytes@[j],
            decreases 20 - i,
        {
            if self.bytes[i] != other.bytes[i] {
                return false;
            }
            i = i + 1;
        }
        assert(self.bytes =~= other.bytes);
        true
    }
}

} // verus!
