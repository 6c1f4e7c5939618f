//! Access to the data that a SEMP response carries.

use vstd::prelude::*;

verus! {

/// A value that may carry data of type `T`.
pub trait Data<T> {
    /// The data the value carries, if any.
    spec fn held(&self) -> Option<T>;

    /// Borrows the data the value carries, if any.
    fn data(&self) -> (r: Option<&T>)
        ensures
            match r {
                Some(d) => self.held() == Some(*d),
                None => self.held() is None,
            },
    ;
}

/// A reference carries the data of what it refers to: `data` returns the
/// referent's data. This departs from a body that calls `data` on the
/// reference itself, which would resolve to this same impl and never return.
impl<'a, T: Data<T>> Data<T> for &'a T {
    open spec fn held(&self) -> Option<T> {
        (**self).held()
    }

    fn data(&self) -> (r: Option<&T>) {
        (**self).data()
    }
}

} // verus!
