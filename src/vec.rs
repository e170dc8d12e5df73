//! Utilities related to [`Vec`].

use vstd::prelude::*;

use crate::collections::uvec::extended;
use crate::collections::KeyFn;
use crate::collections::UniqueKey;
use crate::collections::Uvec;

verus! {

/// An extension trait for vectors.
pub trait VecExt<T>: Sized + View<V = Seq<T>> {
    /// Removes *all* duplicates from a vector based on a key function, retaining the order of the elements.
    ///
    /// Unlike the vector's `dedup` methods, which only remove *consecutive* duplicates, this keeps the
    /// first element with each key. An element for which `f` gives no key is not retained.
    fn dedup_all_by_key<K: UniqueKey, F: KeyFn<K, T>>(&mut self, f: F)
        ensures
            final(self)@ == extended(f, Seq::empty(), old(self)@),
    ;
}

impl<T> VecExt<T> for Vec<T> {
    fn dedup_all_by_key<K: UniqueKey, F: KeyFn<K, T>>(&mut self, f: F) {
        let mut items: Vec<T> = Vec::new();
        std::mem::swap(self, &mut items);
        let mut kept = Uvec::with_key(f);
        kept.extend(items);
        *self = kept.into_vec();
    }
}

} // verus!
