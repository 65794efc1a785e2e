use campus_data::building::{Amenity, Category, Coord, LatLon, Location};
use campus_data::date::Date;
use campus_data::hours::Hours;
use campus_data::{find_repo_root, repo_root, sort_by_stem, Building};

fn coord(v: f64) -> Coord {
    Coord::new(v.to_bits(), format!("{:?}", v))
}

fn building(categories: Vec<Category>, amenities: Vec<Amenity>) -> Building {
    Building {
        id: "rand-hall".to_string(),
        name: "Rand Hall".to_string(),
        aliases: vec![],
        categories,
        address: String::new(),
        description: String::new(),
        hours: Hours::Unknown,
        amenities,
        departments: vec![],
        external_link: None,
        photos: vec![],
        location: Location {
            centroid: LatLon::new(coord(36.1465), coord(-86.8035)),
            footprint: vec![],
            source: Some("osm".to_string()),
        },
        last_verified: None,
        floors: vec![],
    }
}

#[test]
fn category_filtering_is_or_within_the_facet() {
    let rand = building(vec![Category::Dining, Category::Administrative], vec![]);
    assert!(rand.has_any_category(&[]));
    assert!(rand.has_any_category(&[Category::Dining]));
    assert!(rand.has_any_category(&[Category::Athletic, Category::Administrative]));
    assert!(!rand.has_any_category(&[Category::Athletic, Category::Library]));
    let none = building(vec![], vec![]);
    assert!(none.has_any_category(&[]));
    assert!(!none.has_any_category(&[Category::Other]));
}

#[test]
fn amenity_filtering_is_and_within_the_facet() {
    let b = building(vec![Category::Academic], vec![Amenity::Restroom, Amenity::Vending]);
    assert!(b.has_all_amenities(&[]));
    assert!(b.has_all_amenities(&[Amenity::Restroom]));
    assert!(b.has_all_amenities(&[Amenity::Vending, Amenity::Restroom]));
    assert!(!b.has_all_amenities(&[Amenity::Restroom, Amenity::Printing]));
}

#[test]
fn dates_check_the_calendar() {
    assert!(Date::from_ymd_opt(2024, 2, 29).is_some());
    assert!(Date::from_ymd_opt(2023, 2, 29).is_none());
    assert!(Date::from_ymd_opt(1900, 2, 29).is_none());
    assert!(Date::from_ymd_opt(2000, 2, 29).is_some());
    assert!(Date::from_ymd_opt(2026, 4, 31).is_none());
    assert!(Date::from_ymd_opt(2026, 13, 1).is_none());
    assert!(Date::from_ymd_opt(2026, 0, 1).is_none());
    assert!(Date::from_ymd_opt(2026, 1, 0).is_none());
    assert!(Date::from_ymd_opt(262_142, 12, 31).is_some());
    assert!(Date::from_ymd_opt(262_143, 1, 1).is_none());
    assert!(Date::from_ymd_opt(-262_143, 1, 1).is_some());
    assert!(Date::from_ymd_opt(-262_144, 12, 31).is_none());
    // The same answers as chrono gives.
    for (y, m, d) in [(2024, 2, 29), (2023, 2, 29), (-4, 2, 29), (-100, 2, 29), (262_142, 12, 31), (262_143, 1, 1), (-262_143, 1, 1), (-262_144, 12, 31)] {
        assert_eq!(
            Date::from_ymd_opt(y, m, d).is_some(),
            chrono::NaiveDate::from_ymd_opt(y, m, d).is_some(),
            "{y}-{m}-{d}"
        );
    }
}

#[test]
fn dates_are_written_as_chrono_writes_them() {
    for (y, m, d) in [(2026, 9, 2), (7, 1, 5), (0, 12, 31), (-1, 3, 4), (-12345, 6, 7), (10_000, 1, 1), (262_142, 12, 31)] {
        let date = Date::from_ymd_opt(y, m, d).unwrap();
        let expected = chrono::NaiveDate::from_ymd_opt(y, m, d).unwrap().to_string();
        assert_eq!(date.to_string(), expected);
        assert_eq!((date.year(), date.month(), date.day()), (y, m, d));
    }
    assert_eq!(Date::from_ymd_opt(-1, 3, 4).unwrap().to_string(), "-0001-03-04");
}

#[test]
fn dates_are_ordered_by_the_calendar() {
    let a = Date::from_ymd_opt(2026, 9, 7).unwrap();
    let b = Date::from_ymd_opt(2026, 10, 1).unwrap();
    let c = Date::from_ymd_opt(2027, 1, 1).unwrap();
    assert!(b.is_after(&a));
    assert!(c.is_after(&b));
    assert!(!a.is_after(&a));
    assert!(!a.is_after(&c));
}

#[test]
fn the_repository_root_is_the_parent_of_the_tooling() {
    assert_eq!(repo_root("/home/me/vandymap/xtask"), "/home/me/vandymap");
    assert_eq!(repo_root("xtask"), "");
    assert_eq!(find_repo_root("/home/me/vandymap/xtask"), Some("/home/me/vandymap".to_string()));
    assert_eq!(find_repo_root("/"), None);
    assert_eq!(find_repo_root(""), None);
}

#[test]
fn positions_are_shown_as_their_fields() {
    let p = LatLon::new(coord(36.1447), coord(-86.8027));
    assert_eq!(p.shown(), "LatLon { lat: 36.1447, lon: -86.8027 }");
}

#[test]
fn decimals_and_digits() {
    assert_eq!(campus_data::text::decimal_string(0), "0");
    assert_eq!(campus_data::text::decimal_string(1234567), "1234567");
    assert_eq!(campus_data::text::decimal_string(u64::MAX), u64::MAX.to_string());
}

#[test]
fn building_files_are_taken_in_the_order_of_their_stems() {
    let b = building(vec![Category::Academic], vec![]);
    let files = vec![
        ("zeppos".to_string(), b.clone()),
        ("alumni-hall".to_string(), b.clone()),
        ("rand-hall".to_string(), b.clone()),
        ("alumni".to_string(), b.clone()),
        ("Zeta".to_string(), b.clone()),
        ("\u{e9}cole".to_string(), b.clone()),
    ];
    let sorted: Vec<String> = sort_by_stem(files).into_iter().map(|(stem, _)| stem).collect();
    assert_eq!(sorted, vec!["Zeta", "alumni", "alumni-hall", "rand-hall", "zeppos", "\u{e9}cole"]);
    assert!(sort_by_stem(vec![]).is_empty());
}

#[test]
fn entries_of_one_stem_keep_their_order() {
    let first = building(vec![Category::Academic], vec![]);
    let second = building(vec![Category::Dining], vec![]);
    let files = vec![
        ("b".to_string(), first.clone()),
        ("a".to_string(), first.clone()),
        ("b".to_string(), second.clone()),
    ];
    let sorted = sort_by_stem(files);
    assert_eq!(sorted[0].0, "a");
    assert_eq!(sorted[1], ("b".to_string(), first));
    assert_eq!(sorted[2], ("b".to_string(), second));
}

#[test]
fn dates_are_ordered_chronologically() {
    let a = Date::from_ymd_opt(2025, 12, 31).unwrap();
    let b = Date::from_ymd_opt(2026, 1, 1).unwrap();
    let c = Date::from_ymd_opt(2026, 1, 2).unwrap();
    assert!(a < b && b < c && a < c);
    assert!(Date::from_ymd_opt(-5, 6, 1).unwrap() < a);
    assert_eq!(b.partial_cmp(&b), Some(std::cmp::Ordering::Equal));
    assert_eq!(c.max(a), c);
}
