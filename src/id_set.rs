use vstd::prelude::*;

use ahash::AHashSet;

verus! {

/// `ahash::AHashSet`, the set that the scheduler keeps module identifiers in.
#[verifier::external_type_specification]
#[verifier::external_body]
#[verifier::reject_recursive_types(T)]
#[verifier::reject_recursive_types(S)]
pub struct ExAHashSet<T, S>(AHashSet<T, S>);

/// The hasher state that `AHashSet` is seeded with; only carried.
#[verifier::external_type_specification]
#[verifier::external_body]
pub struct ExRandomState(ahash::RandomState);

/// The module identifiers a set holds.
pub uninterp spec fn id_set(s: AHashSet<usize>) -> Set<usize>;

/// Membership flags of the identifiers below `n`.
pub open spec fn flags(s: Set<usize>, n: nat) -> Seq<bool> {
    Seq::new(n, |i: int| s.contains(i as usize))
}

/// Relies on `AHashSet::new`: a set with no items. Its hasher is seeded
/// from the operating system's random source, and it panics only when that
/// source fails.
#[verifier::external_body]
pub(crate) fn id_set_new() -> (r: AHashSet<usize>)
    ensures
        id_set(r) == Set::<usize>::empty(),
{
    AHashSet::new()
}

/// Relies on `HashSet::insert`, reached through `AHashSet`'s `DerefMut`:
/// afterwards the set also holds `x`.
#[verifier::external_body]
pub(crate) fn id_set_insert(s: &mut AHashSet<usize>, x: usize)
    ensures
        id_set(*final(s)) == id_set(*old(s)).insert(x),
{
    s.insert(x);
}

/// Relies on `HashSet::remove`, reached through `AHashSet`'s `DerefMut`:
/// afterwards the set no longer holds `x`.
#[verifier::external_body]
pub(crate) fn id_set_remove(s: &mut AHashSet<usize>, x: usize)
    ensures
        id_set(*final(s)) == id_set(*old(s)).remove(x),
{
    s.remove(&x);
}

/// Relies on `HashSet::contains`, reached through `AHashSet`'s `Deref`.
#[verifier::external_body]
pub(crate) fn id_set_contains(s: &AHashSet<usize>, x: usize) -> (r: bool)
    ensures
        r == id_set(*s).contains(x),
{
    s.contains(&x)
}

} // verus!
