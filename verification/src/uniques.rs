//! Identities that are handed out once.
use vstd::prelude::*;

verus! {

/// The identity of a type variable that the checker has introduced.
#[derive(Debug, Clone, Copy, PartialEq, Eq, PartialOrd, Ord, Hash, Structural)]
pub struct Unique(u64);

impl Unique {
    /// The number that tells this identity apart from the others.
    pub closed spec fn number(self) -> u64 {
        self.0
    }

    /// The identity with the given number.
    pub closed spec fn numbered(number: u64) -> Unique {
        Unique(number)
    }

    /// The identity that no factory hands out. It stands in for any other where identities must
    /// not show.
    pub fn zero() -> (unique: Unique)
        ensures
            unique == Unique::numbered(0),
            unique.number() == 0,
    {
        Unique(0)
    }

    /// The number of this identity, for printing it.
    pub fn to_number(self) -> (number: u64)
        ensures
            number == self.number(),
    {
        self.0
    }
}

/// Identities are the same as their numbers.
pub broadcast proof fn unique_is_its_number(number: u64)
    ensures
        (#[trigger] Unique::numbered(number)).number() == number,
{
}

/// Two identities with the same number are the same identity.
pub proof fn number_identifies(a: Unique, b: Unique)
    ensures
        a.number() == b.number() <==> a == b,
        Unique::numbered(a.number()) == a,
{
}

/// Hands out identities, each of them once.
#[derive(Debug)]
pub struct UniqueFactory {
    next: u64,
}

impl UniqueFactory {
    #[verifier::type_invariant]
    spec fn starts_after_zero(self) -> bool {
        self.next > 0
    }

    /// The number of the identity that is handed out next.
    pub closed spec fn next(&self) -> u64 {
        self.next
    }

    /// How many identities are left to hand out.
    pub open spec fn left(&self) -> int {
        u64::MAX - self.next()
    }

    /// A factory that has handed out nothing yet.
    pub fn new() -> (factory: UniqueFactory)
        ensures
            factory.next() == 1,
    {
        UniqueFactory { next: 1 }
    }

    /// An identity that this factory has not handed out before.
    pub fn fresh(&mut self) -> (unique: Unique)
        requires
            old(self).left() > 0,
        ensures
            unique.number() == old(self).next(),
            unique != Unique::numbered(0),
            final(self).next() == old(self).next() + 1,
    {
        proof {
            use_type_invariant(&*self);
        }
        let unique = Unique(self.next);
        self.next = self.next + 1;
        unique
    }
}

} // verus!
