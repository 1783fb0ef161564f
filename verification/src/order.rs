//! What the median filter needs to know of the order of its samples.

use core::cmp::Ordering;
use vstd::laws_cmp::{
    obeys_cmp, obeys_cmp_ord, obeys_cmp_partial_ord, obeys_partial_cmp_spec_properties,
};
use vstd::laws_eq::obeys_eq_spec_properties;
use vstd::prelude::*;
use vstd::std_specs::cmp::PartialOrdSpec;

verus! {

/// `a` does not come after `b`.
pub open spec fn at_most<T: Ord>(a: T, b: T) -> bool {
    a.partial_cmp_spec(&b) != Some(Ordering::Greater)
}

/// The comparison operators of `T` can be reasoned about, and they keep the
/// laws of a total order.
pub open spec fn lawful_order<T: Ord>() -> bool {
    obeys_cmp::<T>()
}

/// In a lawful order `a > b` tells that `at_most(a, b)` fails, and `at_most`
/// is total and transitive.
pub proof fn lemma_lawful_order<T: Ord>()
    requires
        lawful_order::<T>(),
    ensures
        T::obeys_partial_cmp_spec(),
        forall|a: T, b: T| #![trigger at_most(a, b)] at_most(a, b) || at_most(b, a),
        forall|a: T, b: T, c: T|
            #![trigger at_most(a, b), at_most(b, c)]
            at_most(a, b) && at_most(b, c) ==> at_most(a, c),
{
    reveal(obeys_eq_spec_properties);
    reveal(obeys_partial_cmp_spec_properties);
    reveal(obeys_cmp_partial_ord);
    reveal(obeys_cmp_ord);
    assert forall|a: T, b: T, c: T| at_most(a, b) && at_most(b, c) implies at_most(a, c) by {
        // Were a after c, then either c < a < b, against b <= c; or a and b
        // are equal and b < c < a, against that; or all three are equal.
        if a.partial_cmp_spec(&c) == Some(Ordering::Greater) {
            assert(c.partial_cmp_spec(&a) == Some(Ordering::Less));
        }
    }
}

/// The 16-bit numbers are in lawful order.
pub proof fn lemma_u16_lawful()
    ensures
        lawful_order::<u16>(),
{
    broadcast use vstd::laws_cmp::group_laws_cmp;

}

/// Among 16-bit numbers `at_most` is `<=`.
pub proof fn lemma_u16_order(a: u16, b: u16)
    ensures
        at_most(a, b) <==> a <= b,
{
}

} // verus!
