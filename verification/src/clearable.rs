//! Containers that can drop their contents in place, with chaining helpers.
//! The field-clearing generator emits one call of [`Clearable::clear`] per
//! field; these impls give the common containers that reset.

use vstd::prelude::*;

use std::collections::HashMap;
use std::collections::HashSet;

verus! {

/// A container that can drop its contents in place.
pub trait Clearable: Sized {
    /// Whether the container currently holds nothing.
    spec fn is_clear(&self) -> bool;

    /// Empties the container in place.
    fn clear(&mut self)
        ensures
            final(self).is_clear(),
    ;

    /// Empties the container and hands it back, for chaining.
    fn cleared(&mut self) -> (r: &mut Self)
        ensures
            r.is_clear(),
            *final(self) == *final(r),
    {
        self.clear();
        self
    }

    /// Empties the container when `clear` holds, and hands it back.
    fn cleared_if(&mut self, clear: bool) -> (r: &mut Self)
        ensures
            clear ==> r.is_clear(),
            !clear ==> *r == *old(self),
            *final(self) == *final(r),
    {
        if clear {
            self.clear();
        }
        self
    }
}

impl<T> Clearable for Vec<T> {
    open spec fn is_clear(&self) -> bool {
        self@ == Seq::<T>::empty()
    }

    fn clear(&mut self) {
        Vec::clear(self);
    }
}

impl<T> Clearable for Option<T> {
    open spec fn is_clear(&self) -> bool {
        self is None
    }

    fn clear(&mut self) {
        *self = Option::None;
    }
}

impl<K, V> Clearable for HashMap<K, V> {
    open spec fn is_clear(&self) -> bool {
        self@ == Map::<K, V>::empty()
    }

    fn clear(&mut self) {
        HashMap::clear(self);
    }
}

impl<K> Clearable for HashSet<K> {
    open spec fn is_clear(&self) -> bool {
        self@ == Set::<K>::empty()
    }

    fn clear(&mut self) {
        HashSet::clear(self);
    }
}

} // verus!
