use vstd::prelude::*;

verus! {

/// A position on the screen, in pixels.
#[derive(Copy, Clone, PartialEq, Eq, Structural, Debug)]
pub struct ScreenPosition(pub isize, pub isize);

/// Represents the tile index in the map. Equals to absolute position
/// divided by the size of the tiles.
#[derive(Copy, Clone, PartialEq, Eq, Structural, Debug)]
pub struct MapPosition(pub isize, pub isize);

/// Whether the componentwise sum of two positions fits in `isize`.
pub open spec fn add_fits(a: MapPosition, b: MapPosition) -> bool {
    isize::MIN <= a.0 + b.0 <= isize::MAX && isize::MIN <= a.1 + b.1 <= isize::MAX
}

/// Whether the componentwise difference of two positions fits in `isize`.
pub open spec fn sub_fits(a: MapPosition, b: MapPosition) -> bool {
    isize::MIN <= a.0 - b.0 <= isize::MAX && isize::MIN <= a.1 - b.1 <= isize::MAX
}

/// The componentwise sum of two positions (meaningful where `add_fits` holds).
pub open spec fn plus(a: MapPosition, b: MapPosition) -> MapPosition {
    MapPosition((a.0 + b.0) as isize, (a.1 + b.1) as isize)
}

/// The componentwise difference of two positions (meaningful where `sub_fits` holds).
pub open spec fn minus(a: MapPosition, b: MapPosition) -> MapPosition {
    MapPosition((a.0 - b.0) as isize, (a.1 - b.1) as isize)
}

impl MapPosition {
    /// Componentwise sum.
    pub fn add(&self, other: &MapPosition) -> (r: MapPosition)
        requires
            add_fits(*self, *other),
        ensures
            r == plus(*self, *other),
            r.0 == self.0 + other.0,
            r.1 == self.1 + other.1,
    {
        MapPosition(self.0 + other.0, self.1 + other.1)
    }

    /// Componentwise difference.
    pub fn sub(&self, other: &MapPosition) -> (r: MapPosition)
        requires
            sub_fits(*self, *other),
        ensures
            r == minus(*self, *other),
            r.0 == self.0 - other.0,
            r.1 == self.1 - other.1,
    {
        MapPosition(self.0 - other.0, self.1 - other.1)
    }
}

/// Adding an offset and taking it away again gives back the position.
pub proof fn lemma_add_then_sub(a: MapPosition, b: MapPosition)
    requires
        add_fits(a, b),
    ensures
        sub_fits(plus(a, b), b),
        minus(plus(a, b), b) == a,
{
}

/// Adding positions does not depend on their order.
pub proof fn lemma_add_commutes(a: MapPosition, b: MapPosition)
    requires
        add_fits(a, b),
    ensures
        add_fits(b, a),
        plus(a, b) == plus(b, a),
{
}

} // verus!
