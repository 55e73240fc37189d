//! The identity under which an agent is addressed.

use vstd::prelude::*;

verus! {

/// An identity value: two roles are the same agent exactly when they are equal.
pub trait Role: Copy {
    /// The name under which the role appears in a rendered prompt.
    spec fn label(&self) -> Seq<char>;

    /// Decides whether two roles are the same one.
    fn same(&self, other: &Self) -> (b: bool)
        ensures
            b == (*self == *other),
    ;

    /// Renders the role's name.
    fn name(&self) -> (s: String)
        ensures
            s@ == self.label(),
    ;
}

} // verus!
