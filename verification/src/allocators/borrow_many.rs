use vstd::prelude::*;

verus! {

/// No index occurs twice in `indices`.
pub open spec fn pairwise_distinct<const N: usize>(indices: [usize; N]) -> bool {
    forall|i: int, j: int| 0 <= i < j < N ==> indices@[i] != indices@[j]
}

/// Mutable access to the elements at `indices`, all at once, by the standard
/// library's `get_disjoint_mut` on slices. It gives `None` where an index is
/// out of bounds or occurs twice. Each reference starts at the element it
/// stands for; what is written through it ends up in that element, and the
/// other elements stay as they are.
#[verifier::external_body]
pub(crate) fn disjoint_entries<'a, E, const N: usize>(
    array: &'a mut Vec<E>,
    indices: [usize; N],
) -> (r: Option<[&'a mut E; N]>)
    ensures
        r is Some <==> pairwise_distinct(indices) && forall|i: int|
            0 <= i < N ==> (#[trigger] indices@[i]) < old(array)@.len(),
        final(array)@.len() == old(array)@.len(),
        r is None ==> final(array)@ == old(array)@,
        r matches Some(entries) ==> {
            &&& forall|i: int|
                #![trigger entries@[i]]
                #![trigger indices@[i]]
                0 <= i < N ==> *entries@[i] == old(array)@[indices@[i] as int]
            &&& forall|i: int|
                #![trigger entries@[i]]
                #![trigger indices@[i]]
                0 <= i < N ==> final(array)@[indices@[i] as int] == *final(entries@[i])
            &&& forall|k: int|
                0 <= k < old(array)@.len() && (forall|i: int|
                    0 <= i < N ==> (#[trigger] indices@[i]) != k) ==> final(array)@[k] == old(
                    array,
                )@[k]
        },
{
    match array.get_disjoint_mut(indices) {
        Ok(entries) => Some(entries),
        Err(_) => None,
    }
}

/// The array of what `f` returns for each item of `items`, by the standard
/// library's `map` on arrays: the result at each place is one that `f` may
/// return for the item at that place.
#[verifier::external_body]
pub(crate) fn map_each<A, B, F: Fn(A) -> B, const N: usize>(items: [A; N], f: F) -> (r: [B; N])
    requires
        forall|i: int| 0 <= i < N ==> call_requires(f, (#[trigger] items@[i],)),
    ensures
        forall|i: int|
            #![trigger r@[i]]
            #![trigger items@[i]]
            0 <= i < N ==> call_ensures(f, (items@[i],), r@[i]),
{
    items.map(f)
}

} // verus!
