use vstd::prelude::*;

verus! {

/// 2^64, the weight of one limb.
pub open spec fn limb_base() -> nat {
    0x1_0000_0000_0000_0000
}

/// The largest value a `U256` holds, 2^256 - 1.
pub open spec fn u256_max() -> nat {
    (limb_base() * limb_base() * limb_base() * limb_base() - 1) as nat
}

/// An unsigned 256-bit integer, as four 64-bit limbs, least significant
/// first (the layout that `alloy_primitives::U256` uses).
#[derive(Clone, Copy, Debug, PartialEq, Eq)]
pub struct U256 {
    pub limbs: [u64; 4],
}

impl U256 {
    /// The number this value stands for.
    pub open spec fn value(self) -> nat {
        self.limbs@[0] as nat + limb_base() * (self.limbs@[1] as nat + limb_base() * (
        self.limbs@[2] as nat + limb_base() * self.limbs@[3] as nat))
    }

    pub proof fn lemma_value_bound(self)
        ensures
            self.value() <= u256_max(),
    {
        let a = self.limbs@[0] as nat;
        let b = self.limbs@[1] as nat;
        let c = self.limbs@[2] as nat;
        let d = self.limbs@[3] as nat;
        assert(a < limb_base() && b < limb_base() && c < limb_base() && d < limb_base());
        assert(c + limb_base() * d <= limb_base() * limb_base() - 1) by (nonlinear_arith)
            requires
                c < limb_base(),
                d < limb_base(),
        ;
        assert(b + limb_base() * (c + limb_base() * d) <= limb_base() * limb_base() * limb_base()
            - 1) by (nonlinear_arith)
            requires
                b < limb_base(),
                c + limb_base() * d <= limb_base() * limb_base() - 1,
        ;
        assert(a + limb_base() * (b + limb_base() * (c + limb_base() * d)) <= limb_base()
            * limb_base() * limb_base() * limb_base() - 1) by (nonlinear_arith)
            requires
                a < limb_base(),
                b + limb_base() * (c + limb_base() * d) <= limb_base() * limb_base() * limb_base()
                    - 1,
        ;
    }

    /// Zero.
    pub fn zero() -> (r: U256)
        ensures
            r.value() == 0,
    {
        U256 { limbs: [0u64; 4] }
    }

    /// The value `x`.
    pub fn from_u64(x: u64) -> (r: U256)
        ensures
            r.value() == x,
    {
        U256 { limbs: [x, 0u64, 0u64, 0u64] }
    }

    /// `self + rhs`, or `None` where the sum exceeds 2^256 - 1.
    ///
    /// Relies on `ruint::Uint::checked_add` (the integer type behind
    /// `alloy_primitives::U256`): it returns the exact sum, or `None` on a
    /// carry out of the top limb.
    #[verifier::external_body]
    pub(crate) fn checked_add(self, rhs: U256) -> (r: Option<U256>)
        ensures
            self.value() + rhs.value() <= u256_max() ==> r is Some && r->Some_0.value()
                == self.value() + rhs.value(),
            self.value() + rhs.value() > u256_max() ==> r is None,
    {
        let a = alloy_primitives::U256::from_limbs(self.limbs);
        let b = alloy_primitives::U256::from_limbs(rhs.limbs);
        match a.checked_add(b) {
            Some(s) => Some(U256 { limbs: s.into_limbs() }),
            None => None,
        }
    }

    /// `self - rhs`, or `None` where `rhs` exceeds `self`.
    ///
    /// Relies on `ruint::Uint::checked_sub` (the integer type behind
    /// `alloy_primitives::U256`): it returns the exact difference, or `None`
    /// on a borrow out of the top limb.
    #[verifier::external_body]
    pub(crate) fn checked_sub(self, rhs: U256) -> (r: Option<U256>)
        ensures
            self.value() >= rhs.value() ==> r is Some && r->Some_0.value() == self.value()
                - rhs.value(),
            self.value() < rhs.value() ==> r is None,
    {
        let a = alloy_primitives::U256::from_limbs(self.limbs);
        let b = alloy_primitives::U256::from_limbs(rhs.limbs);
        match a.checked_sub(b) {
            Some(d) => Some(U256 { limbs: d.into_limbs() }),
            None => None,
        }
    }
}

} // verus!
