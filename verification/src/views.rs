//! From a sequence of values to the sequence of their views.

use vstd::prelude::*;

verus! {

/// The views of the items of a sequence, in their order.
pub open spec fn views<T: View>(items: Seq<T>) -> Seq<T::V> {
    Seq::new(items.len(), |i: int| items[i]@)
}

} // verus!
