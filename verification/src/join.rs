//! The two join disciplines, as a trait over the field value shapes:
//! scalar fields replace, list fields append.

use vstd::prelude::*;

use crate::record::Metadata;

verus! {

/// A value that can absorb another per its field's join discipline.
pub trait Joinable<T> {
    fn join(&mut self, other: T);
}

/// Scalar-replace: any value present on `other` supersedes.
impl Joinable<Option<String>> for Option<String> {
    fn join(&mut self, other: Option<String>)
        ensures
            final(self)@ == (if other is Some {
                other
            } else {
                *old(self)
            })@,
    {
        if other.is_some() {
            *self = other;
        }
    }
}

/// List-append: values on `other` extend the list.
impl Joinable<Vec<String>> for Vec<String> {
    fn join(&mut self, other: Vec<String>)
        ensures
            final(self)@ == old(self)@ + other@,
    {
        let mut o = other;
        self.append(&mut o);
    }
}

/// A whole record joins field by field, guarded by `has_keys`.
impl Joinable<Metadata> for Metadata {
    fn join(&mut self, other: Metadata)
        ensures
            final(self)@ == crate::record::spec_join(old(self)@, other@),
    {
        Metadata::join(self, other)
    }
}

} // verus!
