use campus_data::building::{Category, Coord, LatLon, Location};
use campus_data::date::Date;
use campus_data::hours::{Hours, Time, TimeRange, WeeklySchedule};
use campus_data::validate::{campus_bounds, validate_all, validate_building, Finding};
use campus_data::Building;

fn coord(v: f64) -> Coord {
    Coord::new(v.to_bits(), format!("{:?}", v))
}

fn latlon(lat: f64, lon: f64) -> LatLon {
    LatLon::new(coord(lat), coord(lon))
}

fn today() -> Date {
    Date::from_ymd_opt(2026, 9, 7).unwrap()
}

fn valid_building() -> Building {
    Building {
        id: "kirkland-hall".to_string(),
        name: "Kirkland Hall".to_string(),
        aliases: vec![],
        categories: vec![Category::Administrative],
        address: "2201 West End Ave, Nashville, TN 37235".to_string(),
        description: String::new(),
        hours: Hours::Unknown,
        amenities: vec![],
        departments: vec![],
        external_link: None,
        photos: vec![],
        location: Location {
            centroid: latlon(36.1463, -86.8033),
            footprint: vec![],
            source: None,
        },
        last_verified: None,
        floors: vec![],
    }
}

#[test]
fn a_good_building_produces_no_findings() {
    assert_eq!(
        validate_building(&valid_building(), "kirkland-hall", today()),
        vec![]
    );
}

#[test]
fn id_must_match_the_filename() {
    let findings = validate_building(&valid_building(), "kirkland_hall", today());
    assert!(findings.iter().any(|f| f.message.contains("filename")));
}

#[test]
fn categories_cannot_be_empty() {
    let mut building = valid_building();
    building.categories.clear();
    let findings = validate_building(&building, "kirkland-hall", today());
    assert!(findings.iter().any(|f| f.message.contains("categories")));
}

/// The case the LatLon type and this bounds check exist for.
#[test]
fn transposed_coordinates_are_caught() {
    let mut building = valid_building();
    building.location.centroid = latlon(-86.8033, 36.1463);
    let findings = validate_building(&building, "kirkland-hall", today());
    assert!(findings.iter().any(|f| f.message.contains("transposed")));
}

#[test]
fn a_degenerate_footprint_is_rejected() {
    let mut building = valid_building();
    building.location.footprint = vec![latlon(36.146, -86.803), latlon(36.147, -86.804)];
    let findings = validate_building(&building, "kirkland-hall", today());
    assert!(findings.iter().any(|f| f.message.contains("at least 3")));
}

#[test]
fn closing_before_opening_is_rejected() {
    let mut building = valid_building();
    building.hours = Hours::Weekly {
        schedule: WeeklySchedule {
            monday: Some(TimeRange {
                open: Time::parse("17:00").unwrap(),
                close: Time::parse("09:00").unwrap(),
            }),
            ..Default::default()
        },
    };
    let findings = validate_building(&building, "kirkland-hall", today());
    assert!(findings.iter().any(|f| f.message.contains("not after")));
}

#[test]
fn last_verified_cannot_be_in_the_future() {
    let mut building = valid_building();
    building.last_verified = Date::from_ymd_opt(2027, 1, 1);
    let findings = validate_building(&building, "kirkland-hall", today());
    assert!(findings.iter().any(|f| f.message.contains("future")));
}

#[test]
fn duplicate_ids_across_files_are_caught() {
    let building = valid_building();
    let buildings = vec![
        ("kirkland-hall".to_string(), building.clone()),
        ("kirkland-hall-2".to_string(), building),
    ];
    let findings = validate_all(&buildings, today());
    assert!(findings.iter().any(|f| f.message.contains("already used")));
}

#[test]
fn an_empty_dataset_is_valid() {
    assert_eq!(validate_all(&[], today()), vec![]);
}

// ---------------------------------------------------------------------------

fn messages(findings: &[Finding]) -> Vec<String> {
    findings.iter().map(|f| f.message.clone()).collect()
}

#[test]
fn messages_are_exact() {
    let mut building = valid_building();
    building.name = " \t ".to_string();
    building.categories.clear();
    building.location.centroid = latlon(-86.8033, 36.1463);
    building.location.footprint = vec![latlon(36.146, -86.803), latlon(40.0, -86.804)];
    building.hours = Hours::Weekly {
        schedule: WeeklySchedule {
            monday: Some(TimeRange {
                open: Time::parse("17:00").unwrap(),
                close: Time::parse("09:00").unwrap(),
            }),
            friday: Some(TimeRange {
                open: Time::parse("08:00").unwrap(),
                close: Time::parse("08:00").unwrap(),
            }),
            saturday: Some(TimeRange {
                open: Time::parse("08:00").unwrap(),
                close: Time::parse("09:00").unwrap(),
            }),
            ..Default::default()
        },
    };
    building.last_verified = Date::from_ymd_opt(2027, 1, 1);
    let findings = validate_building(&building, "kirkland_hall", today());
    assert!(findings.iter().all(|f| f.file == "kirkland_hall"));
    assert_eq!(
        messages(&findings),
        vec![
            "id \"kirkland-hall\" does not match the filename \"kirkland_hall\"".to_string(),
            "name is empty".to_string(),
            "categories is empty; every building needs at least one".to_string(),
            "centroid LatLon { lat: -86.8033, lon: 36.1463 } is outside the campus bounds — check for transposed lat/lon".to_string(),
            "footprint has 2 points; a polygon needs at least 3".to_string(),
            "footprint point 1 LatLon { lat: 40.0, lon: -86.804 } is outside the campus bounds".to_string(),
            "Mon closes at 09:00 which is not after its 17:00 opening (past-midnight closing times are not representable in v1)".to_string(),
            "Fri closes at 08:00 which is not after its 08:00 opening (past-midnight closing times are not representable in v1)".to_string(),
            "last_verified 2027-01-01 is in the future".to_string(),
        ]
    );
    assert_eq!(
        findings[1].to_string(),
        "kirkland_hall.toml: name is empty"
    );
}

#[test]
fn ids_are_quoted_with_escapes() {
    let mut building = valid_building();
    building.id = "a\"b".to_string();
    let findings = validate_building(&building, "ab", today());
    assert_eq!(
        findings[0].message,
        "id \"a\\\"b\" does not match the filename \"ab\""
    );
}

#[test]
fn a_unicode_space_name_is_empty_but_letters_are_not() {
    let mut building = valid_building();
    building.name = "\u{3000}\u{a0}".to_string();
    let findings = validate_building(&building, "kirkland-hall", today());
    assert_eq!(messages(&findings), vec!["name is empty".to_string()]);
    building.name = "\u{200b}".to_string(); // zero width space is not white space
    assert!(validate_building(&building, "kirkland-hall", today()).is_empty());
}

#[test]
fn three_points_on_campus_make_a_footprint() {
    let mut building = valid_building();
    building.location.footprint = vec![
        latlon(36.146, -86.803),
        latlon(36.147, -86.804),
        latlon(36.148, -86.803),
    ];
    assert!(validate_building(&building, "kirkland-hall", today()).is_empty());
}

#[test]
fn campus_edges_are_inside_and_nan_is_outside() {
    let bounds = campus_bounds();
    assert_eq!(bounds.min_lat.shown, "36.11");
    assert_eq!(bounds.max_lat.shown, "36.18");
    assert_eq!(bounds.min_lon.shown, "-86.84");
    assert_eq!(bounds.max_lon.shown, "-86.77");
    assert!(bounds.contains(&latlon(36.11, -86.84)));
    assert!(bounds.contains(&latlon(36.18, -86.77)));
    assert!(!bounds.contains(&latlon(36.109_999, -86.8)));
    assert!(!bounds.contains(&latlon(36.15, -86.769_999)));
    assert!(!bounds.contains(&latlon(f64::NAN, -86.8)));
    assert!(!bounds.contains(&latlon(36.15, f64::INFINITY)));
    let mut building = valid_building();
    building.location.centroid = latlon(f64::NAN, -86.8);
    assert_eq!(
        messages(&validate_building(&building, "kirkland-hall", today())),
        vec!["centroid LatLon { lat: NaN, lon: -86.8 } is outside the campus bounds — check for transposed lat/lon".to_string()]
    );
}

#[test]
fn coordinates_compare_as_floating_point_numbers() {
    let pairs = [
        (0.0, -0.0),
        (-0.0, 0.0),
        (-1.5, 2.0),
        (2.0, -1.5),
        (-3.0, -2.0),
        (-2.0, -3.0),
        (1.0, 1.0),
        (f64::NEG_INFINITY, -1e300),
        (f64::NAN, 1.0),
        (1.0, f64::NAN),
        (5e-324, 0.0),
    ];
    for (a, b) in pairs {
        assert_eq!(coord(a).le(&coord(b)), a <= b, "{a} <= {b}");
    }
}

#[test]
fn a_verification_date_of_today_is_fine() {
    let mut building = valid_building();
    building.last_verified = Some(today());
    assert!(validate_building(&building, "kirkland-hall", today()).is_empty());
    building.last_verified = Date::from_ymd_opt(2026, 9, 8);
    assert_eq!(
        messages(&validate_building(&building, "kirkland-hall", today())),
        vec!["last_verified 2026-09-08 is in the future".to_string()]
    );
}

#[test]
fn each_repeated_id_names_the_latest_earlier_file() {
    let building = valid_building();
    let buildings = vec![
        ("kirkland-hall".to_string(), building.clone()),
        ("kirkland-hall-2".to_string(), building.clone()),
        ("kirkland-hall-3".to_string(), building),
    ];
    let findings = validate_all(&buildings, today());
    let dup: Vec<(String, String)> = findings
        .iter()
        .filter(|f| f.message.contains("already used"))
        .map(|f| (f.file.clone(), f.message.clone()))
        .collect();
    assert_eq!(
        dup,
        vec![
            (
                "kirkland-hall-2".to_string(),
                "id \"kirkland-hall\" is already used by kirkland-hall.toml".to_string()
            ),
            (
                "kirkland-hall-3".to_string(),
                "id \"kirkland-hall\" is already used by kirkland-hall-2.toml".to_string()
            ),
        ]
    );
    // The per-file findings come first: files 2 and 3 do not match their ids.
    assert_eq!(findings.len(), 4);
    assert_eq!(findings[0].file, "kirkland-hall-2");
    assert!(findings[0].message.contains("filename"));
}

#[test]
fn distinct_ids_raise_no_duplicate_finding() {
    let mut other = valid_building();
    other.id = "rand-hall".to_string();
    let buildings = vec![
        ("kirkland-hall".to_string(), valid_building()),
        ("rand-hall".to_string(), other),
    ];
    assert!(validate_all(&buildings, today()).is_empty());
}
