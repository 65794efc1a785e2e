//! Shared building and facility data for a campus map: the building schema,
//! the filtering predicates, weekly opening hours evaluated in campus time, and
//! the consistency rules that every building record is checked against.

pub mod text;
pub mod date;
pub mod hours;
pub mod building;
pub mod validate;
pub mod layout;

pub use building::{Amenity, Building, Category, Coord, Floor, FloorFacility, LatLon, Location};
pub use date::Date;
pub use hours::{Hours, Instant, Time, TimeParseError, TimeRange, WeeklySchedule, Weekday};
pub use validate::{campus_bounds, validate_all, validate_building, Bounds, Finding};
pub use layout::{find_repo_root, repo_root, sort_by_stem};
