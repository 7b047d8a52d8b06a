//! Classification of a point relative to a plane.

use vstd::prelude::*;

verus! {

/// Which side of a plane a point lies on, under the fixed tolerance
/// `1 / EPS_DEN` around the plane itself.
#[derive(Clone, Copy, Debug, PartialEq, Eq, Structural)]
pub enum Side {
    Coplanar,
    Below,
    Above,
}

impl Side {
    /// Both sides match, counting `Coplanar` as equal to either side.
    pub fn aprox_equals(&self, rhs: &Side) -> (r: bool)
        ensures
            r <==> (self == rhs || *rhs == Side::Coplanar || *self == Side::Coplanar),
    {
        self == rhs || rhs == &Side::Coplanar || self == &Side::Coplanar
    }

    /// The side is `Above` or `Coplanar`.
    pub fn aprox_above(&self) -> (r: bool)
        ensures
            r <==> (*self == Side::Coplanar || *self == Side::Above),
    {
        matches!(self, Side::Coplanar | Side::Above)
    }

    /// The side is `Below` or `Coplanar`.
    pub fn aprox_below(&self) -> (r: bool)
        ensures
            r <==> (*self == Side::Coplanar || *self == Side::Below),
    {
        matches!(self, Side::Coplanar | Side::Below)
    }
}

} // verus!
