//! Access to the record collections as plain vectors: every collection type
//! of this crate wraps a `Vec` and exposes it through this trait.

use vstd::prelude::*;
use vstd::std_specs::cmp::PartialEqSpec;

verus! {

/// `s` without every record that compares equal to `other`.
pub open spec fn without<T: PartialEq + PartialEqSpec>(s: Seq<T>, other: T) -> Seq<T> {
    s.filter(|x: T| !x.eq_spec(&other))
}

/// A newtype over a vector of records. `items` is the abstract content; the
/// accessors expose the underlying vector, and `exclude` drops every record
/// equal to a given one.
pub trait AsVec: Sized {
    type Item: PartialEq + PartialEqSpec;

    /// The records held, in order.
    spec fn items(&self) -> Seq<Self::Item>;

    fn into_inner(self) -> (r: Vec<Self::Item>)
        ensures
            r@ == self.items(),
    ;

    fn as_vec(&self) -> (r: &Vec<Self::Item>)
        ensures
            r@ == self.items(),
    ;

    fn as_mut_vec(&mut self) -> (r: &mut Vec<Self::Item>)
        ensures
            (*r)@ == old(self).items(),
            final(self).items() == (*final(r))@,
    ;

    fn is_empty(&self) -> (r: bool)
        ensures
            r == (self.items().len() == 0),
    ;

    /// Drops every record that compares equal to `other`.
    fn exclude(&mut self, other: &Self::Item)
        ensures
            Self::Item::obeys_eq_spec() ==> final(self).items() == without(
                old(self).items(),
                *other,
            ),
    ;
}

} // verus!
