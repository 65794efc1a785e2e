//! The building schema: one record per building, with its categories,
//! amenities, hours and location, and the predicates the filters use.

use vstd::prelude::*;
use crate::date::Date;
use crate::hours::Hours;

verus! {

/// What a building is for. A building may have several.
#[derive(Debug, Clone, Copy, PartialEq, Eq, Hash, Structural)]
pub enum Category {
    Academic,
    Residential,
    Dining,
    Athletic,
    Administrative,
    Library,
    Parking,
    Chapel,
    Health,
    Greek,
    StudentServices,
    Other,
}

/// A facility that a building offers.
#[derive(Debug, Clone, Copy, PartialEq, Eq, Hash, Structural)]
pub enum Amenity {
    Restroom,
    Vending,
    Atm,
    Printing,
    StudySpace,
    WaterFountain,
    Outlets,
}

// ---------------------------------------------------------------------------
// Coordinates
// ---------------------------------------------------------------------------

/// The sign bit of an IEEE-754 binary64 bit pattern.
pub open spec fn sign_bit(bits: u64) -> bool {
    bits >= 0x8000_0000_0000_0000
}

/// The bit pattern without its sign bit: exponent and significand, which
/// grow with the absolute value of the number.
pub open spec fn magnitude_bits(bits: u64) -> int {
    if sign_bit(bits) {
        bits - 0x8000_0000_0000_0000
    } else {
        bits as int
    }
}

/// Whether a binary64 bit pattern is a NaN: all exponent bits set and a
/// significand that is not zero.
pub open spec fn is_nan_bits(bits: u64) -> bool {
    magnitude_bits(bits) > 0x7FF0_0000_0000_0000
}

/// An integer with the order of the binary64 numbers that are not NaN, in
/// which positive and negative zero are equal.
pub open spec fn order_key(bits: u64) -> int {
    if sign_bit(bits) {
        -magnitude_bits(bits)
    } else {
        magnitude_bits(bits)
    }
}

/// The IEEE-754 `<=` of two binary64 numbers given by their bit patterns:
/// false when either is NaN.
pub open spec fn float_le(a: u64, b: u64) -> bool {
    !is_nan_bits(a) && !is_nan_bits(b) && order_key(a) <= order_key(b)
}

/// One coordinate of a position: a binary64 number, held by its bit pattern
/// (by which it is compared, exactly as the floating-point number is), and
/// the text it is shown as in messages (the number's shortest round-trip
/// decimal form, as Rust's `Debug` writes it).
#[derive(Debug, Clone, PartialEq, Eq)]
pub struct Coord {
    pub bits: u64,
    pub shown: String,
}

impl Coord {
    /// A coordinate from its bit pattern and its shown text.
    pub fn new(bits: u64, shown: String) -> (c: Coord)
        ensures
            c.bits == bits,
            c.shown@ == shown@,
    {
        Coord { bits, shown }
    }

    /// The IEEE-754 `<=` of this coordinate and `other`.
    pub fn le(&self, other: &Coord) -> (b: bool)
        ensures
            b == float_le(self.bits, other.bits),
    {
        let a = self.bits;
        let b = other.bits;
        let sign: u64 = 0x8000_0000_0000_0000;
        let a_mag: u64 = if a >= sign { a - sign } else { a };
        let b_mag: u64 = if b >= sign { b - sign } else { b };
        let inf: u64 = 0x7FF0_0000_0000_0000;
        if a_mag > inf || b_mag > inf {
            return false;
        }
        if a >= sign {
            if b >= sign {
                b_mag <= a_mag
            } else {
                true
            }
        } else {
            if b >= sign {
                a_mag == 0 && b_mag == 0
            } else {
                a_mag <= b_mag
            }
        }
    }
}

/// The text `LatLon { lat: .., lon: .. }` a position is shown as in messages.
pub open spec fn latlon_text(p: LatLon) -> Seq<char> {
    "LatLon { lat: "@ + p.lat.shown@ + ", lon: "@ + p.lon.shown@ + " }"@
}

/// A named coordinate pair.
///
/// A struct rather than a pair: transposing latitude and longitude is the
/// easiest mistake to make in this dataset, and naming the fields makes it
/// unrepresentable rather than something validation has to catch.
#[derive(Debug, Clone, PartialEq, Eq)]
pub struct LatLon {
    pub lat: Coord,
    pub lon: Coord,
}

impl LatLon {
    /// The position at latitude `lat` and longitude `lon`.
    pub fn new(lat: Coord, lon: Coord) -> (p: LatLon)
        ensures
            p.lat == lat,
            p.lon == lon,
    {
        LatLon { lat, lon }
    }

    /// The text this position is shown as in messages.
    pub fn shown(&self) -> (s: String)
        ensures
            s@ == latlon_text(*self),
    {
        let mut s = String::from_str("LatLon { lat: ");
        s.append(self.lat.shown.as_str());
        s.append(", lon: ");
        s.append(self.lon.shown.as_str());
        s.append(" }");
        s
    }
}

/// Where a building is.
#[derive(Debug, Clone, PartialEq, Eq)]
pub struct Location {
    /// Used for pins and search fly-to.
    pub centroid: LatLon,
    /// Polygon outline. Empty means "fall back to a pin at the centroid".
    pub footprint: Vec<LatLon>,
    /// Provenance, e.g. `"osm"`: which records carry OpenStreetMap geometry.
    pub source: Option<String>,
}

/// A floor of a building. Reserved for floorplans; empty for now.
#[derive(Debug, Clone, PartialEq, Eq)]
pub struct Floor {
    pub level: i32,
    /// e.g. "1st Floor", "Basement".
    pub label: String,
    pub plan_image: Option<String>,
    pub facilities: Vec<FloorFacility>,
}

/// A facility marked on a floorplan.
#[derive(Debug, Clone, PartialEq, Eq)]
pub struct FloorFacility {
    pub kind: Amenity,
    /// Coordinates within the floorplan image, not latitude and longitude.
    pub x: Coord,
    pub y: Coord,
    pub note: Option<String>,
}

/// One campus building, backed by one hand-edited file named by its `id`.
#[derive(Debug, Clone, PartialEq, Eq)]
pub struct Building {
    /// Stable slug; matches the file name. Never reused.
    pub id: String,
    /// Full official name.
    pub name: String,
    /// Abbreviations and nicknames, used by search.
    pub aliases: Vec<String>,
    /// Several at once: a building may be both Dining and Administrative.
    pub categories: Vec<Category>,
    pub address: String,
    pub description: String,
    pub hours: Hours,
    pub amenities: Vec<Amenity>,
    /// Departments and offices housed here.
    pub departments: Vec<String>,
    pub external_link: Option<String>,
    /// Reserved; stays empty for now.
    pub photos: Vec<String>,
    pub location: Location,
    /// When this record was last checked against reality, shown so that
    /// stale data is visibly stale.
    pub last_verified: Option<Date>,
    /// Reserved for floorplans. Empty for now.
    pub floors: Vec<Floor>,
}

/// Whether a building with categories `have` matches the category filter
/// `wanted`: an empty filter matches every building, otherwise any one of the
/// wanted categories is enough.
pub open spec fn matches_any_category(have: Seq<Category>, wanted: Seq<Category>) -> bool {
    wanted.len() == 0 || exists|i: int| 0 <= i < wanted.len() && have.contains(#[trigger] wanted[i])
}

/// Whether a building with amenities `have` matches the amenity filter
/// `wanted`: it must have every wanted amenity.
pub open spec fn has_every_amenity(have: Seq<Amenity>, wanted: Seq<Amenity>) -> bool {
    forall|i: int| 0 <= i < wanted.len() ==> have.contains(#[trigger] wanted[i])
}

fn contains_category(have: &Vec<Category>, c: Category) -> (b: bool)
    ensures
        b == have@.contains(c),
{
    let mut i: usize = 0;
    while i < have.len()
        invariant
            i <= have.len(),
            forall|j: int| 0 <= j < i ==> have@[j] != c,
        decreases have.len() - i,
    {
        if have[i] == c {
            return true;
        }
        i = i + 1;
    }
    false
}

fn contains_amenity(have: &Vec<Amenity>, a: Amenity) -> (b: bool)
    ensures
        b == have@.contains(a),
{
    let mut i: usize = 0;
    while i < have.len()
        invariant
            i <= have.len(),
            forall|j: int| 0 <= j < i ==> have@[j] != a,
        decreases have.len() - i,
    {
        if have[i] == a {
            return true;
        }
        i = i + 1;
    }
    false
}

impl Building {
    /// True if any of `wanted` is among this building's categories, or if
    /// `wanted` is empty.
    ///
    /// Category filtering is OR within the facet: selecting Dining and
    /// Athletic shows buildings that are either.
    pub fn has_any_category(&self, wanted: &[Category]) -> (b: bool)
        ensures
            b == matches_any_category(self.categories@, wanted@),
    {
        if wanted.len() == 0 {
            return true;
        }
        let mut i: usize = 0;
        while i < wanted.len()
            invariant
                i <= wanted@.len(),
                forall|j: int| 0 <= j < i ==> !self.categories@.contains(#[trigger] wanted@[j]),
            decreases wanted.len() - i,
        {
            if contains_category(&self.categories, wanted[i]) {
                return true;
            }
            i = i + 1;
        }
        false
    }

    /// True if this building has every amenity in `wanted`.
    ///
    /// Amenity filtering is AND within the facet: asking for restrooms and
    /// vending means both, not either.
    pub fn has_all_amenities(&self, wanted: &[Amenity]) -> (b: bool)
        ensures
            b == has_every_amenity(self.amenities@, wanted@),
    {
        let mut i: usize = 0;
        while i < wanted.len()
            invariant
                i <= wanted@.len(),
                forall|j: int| 0 <= j < i ==> self.amenities@.contains(#[trigger] wanted@[j]),
            decreases wanted.len() - i,
        {
            if !contains_amenity(&self.amenities, wanted[i]) {
                return false;
            }
            i = i + 1;
        }
        true
    }
}

/// An empty category selection shows every building, and widening a
/// selection that is not empty never hides a building it showed.
pub proof fn law_wider_category_selection_shows_more(have: Seq<Category>, wanted: Seq<Category>, extra: Category)
    ensures
        matches_any_category(have, Seq::empty()),
        wanted.len() > 0 && matches_any_category(have, wanted) ==> matches_any_category(have, wanted.push(extra)),
{
    if wanted.len() > 0 && matches_any_category(have, wanted) {
        let i = choose|i: int| 0 <= i < wanted.len() && have.contains(#[trigger] wanted[i]);
        assert(wanted.push(extra)[i] == wanted[i]);
    }
}

/// An empty amenity selection shows every building, and asking for one more
/// amenity never shows a building that was hidden.
pub proof fn law_more_amenities_show_fewer(have: Seq<Amenity>, wanted: Seq<Amenity>, extra: Amenity)
    ensures
        has_every_amenity(have, Seq::empty()),
        !has_every_amenity(have, wanted) ==> !has_every_amenity(have, wanted.push(extra)),
{
    if !has_every_amenity(have, wanted) {
        let i = choose|i: int| 0 <= i < wanted.len() && !have.contains(#[trigger] wanted[i]);
        assert(wanted.push(extra)[i] == wanted[i]);
    }
}

/// A building matches a category selection exactly when the selection is
/// empty or some category of the selection, wherever it stands in it, is one
/// of the building's categories.
pub proof fn law_category_filter_is_any_of(have: Seq<Category>, wanted: Seq<Category>)
    ensures
        matches_any_category(have, wanted) <==> (wanted.len() == 0 || exists|c: Category|
            #[trigger] wanted.contains(c) && have.contains(c)),
{
    if wanted.len() > 0 {
        if matches_any_category(have, wanted) {
            let i = choose|i: int| 0 <= i < wanted.len() && have.contains(#[trigger] wanted[i]);
            assert(wanted.contains(wanted[i]));
        }
        if exists|c: Category| #[trigger] wanted.contains(c) && have.contains(c) {
            let c = choose|c: Category| #[trigger] wanted.contains(c) && have.contains(c);
            let i = choose|i: int| 0 <= i < wanted.len() && wanted[i] == c;
            assert(have.contains(wanted[i]));
        }
    }
}

/// A building matches an amenity selection exactly when every amenity of the
/// selection is one of the building's amenities; so a building that lists
/// no amenity matches only the empty selection.
pub proof fn law_amenity_filter_is_all_of(have: Seq<Amenity>, wanted: Seq<Amenity>)
    ensures
        has_every_amenity(have, wanted) <==> (forall|a: Amenity| #[trigger] wanted.contains(a)
            ==> have.contains(a)),
        have.len() == 0 ==> (has_every_amenity(have, wanted) <==> wanted.len() == 0),
{
    if has_every_amenity(have, wanted) {
        assert forall|a: Amenity| #[trigger] wanted.contains(a) implies have.contains(a) by {
            let i = choose|i: int| 0 <= i < wanted.len() && wanted[i] == a;
            assert(have.contains(wanted[i]));
        }
    }
    if forall|a: Amenity| #[trigger] wanted.contains(a) ==> have.contains(a) {
        assert forall|i: int| 0 <= i < wanted.len() implies have.contains(#[trigger] wanted[i]) by {
            assert(wanted.contains(wanted[i]));
        }
    }
    if have.len() == 0 && wanted.len() > 0 {
        assert(wanted.contains(wanted[0]));
        assert(!have.contains(wanted[0]));
    }
}

} // verus!
