//! A trait for intersection checks.

use vstd::prelude::*;

verus! {

/// An intersection test of `Self` against `T`, answering an `R`.
///
/// Each implementation states its own admissible inputs in
/// `intersects_req` and what the answer means in `intersects_ens`.
pub trait Intersect<T, R> {
    spec fn intersects_req(&self, other: &T) -> bool;

    spec fn intersects_ens(&self, other: &T, r: R) -> bool;

    fn intersects(&self, other: &T) -> (r: R)
        requires
            self.intersects_req(other),
        ensures
            self.intersects_ens(other, r),
    ;
}

} // verus!
