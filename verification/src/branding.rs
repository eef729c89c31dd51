//! Brand identities and their imprints.
//!
//! A brand stands for one runtime instance; every resource belonging to
//! that runtime carries an imprint of its brand. Imprints drawn from one
//! brand compare equal; imprints drawn from distinct brands never do. Two
//! flavors exist: a region-scoped brand, minted on entry to a region and
//! interchangeable only within it, and a free-standing counter-based
//! brand. Both draw their identity from a counter the embedder keeps, so
//! imprints of distinct brands always compare unequal.

use vstd::prelude::*;

verus! {

/// A brand identity: a source of comparable imprints.
///
/// `imprint_value` is the mathematical identity of an imprint; two
/// imprints stand for the same brand exactly when their values agree.
pub trait EFID: Sized {
    type Imprint: Copy;

    /// The identity an imprint carries.
    spec fn imprint_value(i: Self::Imprint) -> int;

    /// The identity this brand issues.
    spec fn brand_value(&self) -> int;

    /// Issue an imprint of this brand.
    fn get_imprint(&self) -> (r: Self::Imprint)
        ensures
            Self::imprint_value(r) == self.brand_value(),
    ;

    /// Compare two imprints; true exactly when they carry one identity.
    fn compare(a: &Self::Imprint, b: &Self::Imprint) -> (r: bool)
        ensures
            r == (Self::imprint_value(*a) == Self::imprint_value(*b)),
    ;
}

/// A brand that exists only within one entered region.
///
/// The region is entered through [`EFLifetimeBranding::new`], which
/// mints a fresh identity from the embedder's counter and hands the
/// closure a brand carrying it. Imprints issued within the region carry
/// that identity, so they compare equal to each other and unequal to
/// every imprint of any other region or brand.
pub struct EFLifetimeBranding {
    id: u64,
}

/// An imprint of a region-scoped brand, comparing by the region's
/// minted identity.
#[derive(Clone, Copy, Debug, PartialEq, Eq, Structural)]
pub struct EFLifetimeBrandingImprint {
    id: u64,
}

impl EFLifetimeBranding {
    /// Run `f` with a fresh region-scoped brand minted from `counter`.
    ///
    /// The counter is process-wide state kept by the embedder; entering
    /// a region advances it by one, so distinct regions yield brands of
    /// distinct identity. A counter at its maximum must not be advanced
    /// further.
    pub fn new<R, F: FnOnce(EFLifetimeBranding) -> R>(counter: &mut u64, f: F) -> (r: R)
        requires
            *old(counter) < u64::MAX,
            forall|b: EFLifetimeBranding|
                b.brand_value() == *old(counter) ==> call_requires(f, (b,)),
        ensures
            *final(counter) == *old(counter) + 1,
            exists|b: EFLifetimeBranding|
                b.brand_value() == *old(counter) && call_ensures(f, (b,), r),
    {
        let id = *counter;
        *counter = *counter + 1;
        let b = EFLifetimeBranding { id };
        proof {
            assert(b.brand_value() == *old(counter));
        }
        f(b)
    }
}

impl EFID for EFLifetimeBranding {
    type Imprint = EFLifetimeBrandingImprint;

    closed spec fn imprint_value(i: EFLifetimeBrandingImprint) -> int {
        i.id as int
    }

    closed spec fn brand_value(&self) -> int {
        self.id as int
    }

    fn get_imprint(&self) -> (r: EFLifetimeBrandingImprint) {
        EFLifetimeBrandingImprint { id: self.id }
    }

    fn compare(a: &EFLifetimeBrandingImprint, b: &EFLifetimeBrandingImprint) -> (r: bool) {
        a.id == b.id
    }
}

/// A counter-based brand: the `n`-th brand minted from a counter.
pub struct EFRuntimeBranding {
    id: u64,
}

/// An imprint of a counter-based brand, comparing by the brand number.
#[derive(Clone, Copy, Debug, PartialEq, Eq, Structural)]
pub struct EFRuntimeBrandingImprint {
    id: u64,
}

impl EFRuntimeBranding {
    /// Mint the next brand from `counter`.
    ///
    /// The counter is process-wide state kept by the embedder; minting
    /// advances it by one, so distinct calls yield distinct brands. A
    /// counter at its maximum must not be advanced further.
    pub fn new(counter: &mut u64) -> (r: Self)
        requires
            *old(counter) < u64::MAX,
        ensures
            r.brand_value() == *old(counter),
            *final(counter) == *old(counter) + 1,
    {
        let id = *counter;
        *counter = *counter + 1;
        EFRuntimeBranding { id }
    }
}

impl EFID for EFRuntimeBranding {
    type Imprint = EFRuntimeBrandingImprint;

    closed spec fn imprint_value(i: EFRuntimeBrandingImprint) -> int {
        i.id as int
    }

    closed spec fn brand_value(&self) -> int {
        self.id as int
    }

    fn get_imprint(&self) -> (r: EFRuntimeBrandingImprint) {
        EFRuntimeBrandingImprint { id: self.id }
    }

    fn compare(a: &EFRuntimeBrandingImprint, b: &EFRuntimeBrandingImprint) -> (r: bool) {
        a.id == b.id
    }
}

/// Imprint separation, for every brand flavor: imprints issued by
/// distinct brands never carry one identity, and imprints issued by one
/// brand always do.
pub proof fn lemma_imprint_brand_separation<ID: EFID>(
    b1: &ID,
    b2: &ID,
    i1: ID::Imprint,
    i2: ID::Imprint,
)
    requires
        ID::imprint_value(i1) == b1.brand_value(),
        ID::imprint_value(i2) == b2.brand_value(),
    ensures
        b1.brand_value() != b2.brand_value() ==> ID::imprint_value(i1) != ID::imprint_value(i2),
        b1.brand_value() == b2.brand_value() ==> ID::imprint_value(i1) == ID::imprint_value(i2),
{
}

} // verus!
