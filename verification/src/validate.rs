//! Schema and consistency checks over the building records.
//!
//! On a dataset that one person keeps by hand, these rules are what stands
//! between a typo and shipped bad data, so they are strict and their messages
//! specific.

use vstd::prelude::*;
use crate::building::{float_le, latlon_text, Building, Coord, LatLon};
use crate::date::{date_precedes, date_text, Date};
use crate::hours::{days_with_ranges, hh_mm_text, time_precedes, weekday_name, Hours, TimeRange, Weekday};
use crate::text::{debug_quoted, debug_text, decimal, decimal_string, is_white_space};

verus! {

// ---------------------------------------------------------------------------
// Campus bounds
// ---------------------------------------------------------------------------

/// Bit pattern of 36.11, the southern edge of the campus bounds.
pub const CAMPUS_MIN_LAT_BITS: u64 = 0x4042_0E14_7AE1_47AE;

/// Bit pattern of 36.18, the northern edge of the campus bounds.
pub const CAMPUS_MAX_LAT_BITS: u64 = 0x4042_170A_3D70_A3D7;

/// Bit pattern of -86.84, the western edge of the campus bounds.
pub const CAMPUS_MIN_LON_BITS: u64 = 0xC055_B5C2_8F5C_28F6;

/// Bit pattern of -86.77, the eastern edge of the campus bounds.
pub const CAMPUS_MAX_LON_BITS: u64 = 0xC055_B147_AE14_7AE1;

/// A latitude and longitude box, edges included.
#[derive(Debug, Clone, PartialEq, Eq)]
pub struct Bounds {
    pub min_lat: Coord,
    pub max_lat: Coord,
    pub min_lon: Coord,
    pub max_lon: Coord,
}

/// Whether box `b` holds position `p`: each coordinate lies between the two
/// edges, by the IEEE-754 comparison (so a NaN coordinate is never inside).
pub open spec fn bounds_contain(b: Bounds, p: LatLon) -> bool {
    &&& float_le(b.min_lat.bits, p.lat.bits)
    &&& float_le(p.lat.bits, b.max_lat.bits)
    &&& float_le(b.min_lon.bits, p.lon.bits)
    &&& float_le(p.lon.bits, b.max_lon.bits)
}

/// Whether position `p` lies within the campus bounds.
pub open spec fn on_campus(p: LatLon) -> bool {
    &&& float_le(CAMPUS_MIN_LAT_BITS, p.lat.bits)
    &&& float_le(p.lat.bits, CAMPUS_MAX_LAT_BITS)
    &&& float_le(CAMPUS_MIN_LON_BITS, p.lon.bits)
    &&& float_le(p.lon.bits, CAMPUS_MAX_LON_BITS)
}

impl Bounds {
    /// Whether this box holds `point`.
    pub fn contains(&self, point: &LatLon) -> (b: bool)
        ensures
            b == bounds_contain(*self, *point),
    {
        self.min_lat.le(&point.lat) && point.lat.le(&self.max_lat) && self.min_lon.le(&point.lon)
            && point.lon.le(&self.max_lon)
    }
}

/// A generous box around the campus: wide enough for every in-scope
/// building, tight enough that a transposed coordinate lands far outside it.
pub fn campus_bounds() -> (b: Bounds)
    ensures
        b.min_lat.bits == CAMPUS_MIN_LAT_BITS,
        b.max_lat.bits == CAMPUS_MAX_LAT_BITS,
        b.min_lon.bits == CAMPUS_MIN_LON_BITS,
        b.max_lon.bits == CAMPUS_MAX_LON_BITS,
        b.min_lat.shown@ == "36.11"@,
        b.max_lat.shown@ == "36.18"@,
        b.min_lon.shown@ == "-86.84"@,
        b.max_lon.shown@ == "-86.77"@,
{
    Bounds {
        min_lat: Coord::new(CAMPUS_MIN_LAT_BITS, String::from_str("36.11")),
        max_lat: Coord::new(CAMPUS_MAX_LAT_BITS, String::from_str("36.18")),
        min_lon: Coord::new(CAMPUS_MIN_LON_BITS, String::from_str("-86.84")),
        max_lon: Coord::new(CAMPUS_MAX_LON_BITS, String::from_str("-86.77")),
    }
}

// ---------------------------------------------------------------------------
// Findings
// ---------------------------------------------------------------------------

/// One problem found in one building file.
#[derive(Debug, Clone, PartialEq, Eq)]
pub struct Finding {
    /// File stem the problem was found in, e.g. `"featheringill-hall"`.
    pub file: String,
    pub message: String,
}

impl View for Finding {
    /// The file stem and the message.
    type V = (Seq<char>, Seq<char>);

    open spec fn view(&self) -> (Seq<char>, Seq<char>) {
        (self.file@, self.message@)
    }
}

impl Finding {
    /// The finding as one line: `<file>.toml: <message>`.
    pub fn to_string(&self) -> (s: String)
        ensures
            s@ == self.file@ + ".toml: "@ + self.message@,
    {
        let mut s = self.file.clone();
        s.append(".toml: ");
        s.append(self.message.as_str());
        s
    }
}

/// The views of some findings.
pub open spec fn finding_views(v: Seq<Finding>) -> Seq<(Seq<char>, Seq<char>)> {
    v.map_values(|f: Finding| f@)
}

/// The texts of some strings.
pub open spec fn texts(v: Seq<String>) -> Seq<Seq<char>> {
    v.map_values(|s: String| s@)
}

/// Messages about file `file`, as findings.
pub open spec fn as_findings(file: Seq<char>, messages: Seq<Seq<char>>) -> Seq<(Seq<char>, Seq<char>)> {
    messages.map_values(|m: Seq<char>| (file, m))
}

/// The one message `m` when `cond` holds, else none.
pub open spec fn when(cond: bool, m: Seq<char>) -> Seq<Seq<char>> {
    if cond {
        seq![m]
    } else {
        Seq::empty()
    }
}

// ---------------------------------------------------------------------------
// The rules of one building
// ---------------------------------------------------------------------------

/// Whether `s` is empty once trimmed: nothing but white space.
pub open spec fn is_blank(s: Seq<char>) -> bool {
    forall|i: int| 0 <= i < s.len() ==> is_white_space(#[trigger] s[i])
}

/// The message of an id that differs from its file name.
pub open spec fn id_mismatch_message(id: Seq<char>, file: Seq<char>) -> Seq<char> {
    "id "@ + debug_text(id) + " does not match the filename "@ + debug_text(file)
}

/// The message of a blank name.
pub open spec fn empty_name_message() -> Seq<char> {
    "name is empty"@
}

/// The message of a building without categories.
pub open spec fn no_categories_message() -> Seq<char> {
    "categories is empty; every building needs at least one"@
}

/// The message of a centroid outside the campus.
pub open spec fn centroid_message(p: LatLon) -> Seq<char> {
    "centroid "@ + latlon_text(p) + " is outside the campus bounds — check for transposed lat/lon"@
}

/// The message of a footprint with too few points.
pub open spec fn short_footprint_message(n: nat) -> Seq<char> {
    "footprint has "@ + decimal(n) + " points; a polygon needs at least 3"@
}

/// The message of footprint point `i` outside the campus.
pub open spec fn footprint_point_message(i: nat, p: LatLon) -> Seq<char> {
    "footprint point "@ + decimal(i) + " "@ + latlon_text(p) + " is outside the campus bounds"@
}

/// The message of a day whose closing time is not after its opening time.
pub open spec fn closing_message(day: Weekday, r: TimeRange) -> Seq<char> {
    weekday_name(day) + " closes at "@ + hh_mm_text(r.close@) + " which is not after its "@
        + hh_mm_text(r.open@)
        + " opening (past-midnight closing times are not representable in v1)"@
}

/// The message of a verification date after today.
pub open spec fn future_date_message(d: (int, int, int)) -> Seq<char> {
    "last_verified "@ + date_text(d) + " is in the future"@
}

/// The messages of the first `n` footprint points that lie off campus.
pub open spec fn footprint_messages(points: Seq<LatLon>, n: nat) -> Seq<Seq<char>>
    decreases n,
{
    if n == 0 {
        Seq::empty()
    } else {
        footprint_messages(points, (n - 1) as nat) + when(
            !on_campus(points[n - 1]),
            footprint_point_message((n - 1) as nat, points[n - 1]),
        )
    }
}

/// The messages of the first `n` day ranges that close at or before they
/// open.
pub open spec fn closing_messages(ranges: Seq<(Weekday, TimeRange)>, n: nat) -> Seq<Seq<char>>
    decreases n,
{
    if n == 0 {
        Seq::empty()
    } else {
        let (day, r) = ranges[n - 1];
        closing_messages(ranges, (n - 1) as nat) + when(
            !time_precedes(r.open@, r.close@),
            closing_message(day, r),
        )
    }
}

/// The messages about the hours of a building.
pub open spec fn hours_messages(h: Hours) -> Seq<Seq<char>> {
    match h {
        Hours::Weekly { schedule } => {
            let ranges = days_with_ranges(schedule.week());
            closing_messages(ranges, ranges.len())
        },
        _ => Seq::empty(),
    }
}

/// The message about the verification date of a building, on day `today`.
pub open spec fn verified_messages(last_verified: Option<Date>, today: Date) -> Seq<Seq<char>> {
    match last_verified {
        Some(d) => when(date_precedes(today@, d@), future_date_message(d@)),
        None => Seq::empty(),
    }
}

/// Every message about building `b` read from the file with stem `file`, on
/// day `today`, in the order they are reported:
///
/// - the `id` must match the file name;
/// - the name must not be blank;
/// - there must be at least one category;
/// - the centroid must lie within the campus bounds;
/// - a footprint, if not empty, needs at least 3 points, and each point must
///   lie within the campus bounds;
/// - weekly hours must close after they open on each day;
/// - `last_verified`, if present, must not be after today.
pub open spec fn building_messages(b: Building, file: Seq<char>, today: Date) -> Seq<Seq<char>> {
    let footprint = b.location.footprint@;
    when(b.id@ != file, id_mismatch_message(b.id@, file))
        + when(is_blank(b.name@), empty_name_message())
        + when(b.categories@.len() == 0, no_categories_message())
        + when(!on_campus(b.location.centroid), centroid_message(b.location.centroid))
        + when(
            footprint.len() != 0 && footprint.len() < 3,
            short_footprint_message(footprint.len()),
        )
        + footprint_messages(footprint, footprint.len())
        + hours_messages(b.hours)
        + verified_messages(b.last_verified, today)
}

/// Adding a string adds its text.
proof fn lemma_texts_push(v: Seq<String>, s: String)
    ensures
        texts(v.push(s)) == texts(v).push(s@),
{
    assert(texts(v.push(s)) =~= texts(v).push(s@));
}

/// Appending strings appends their texts.
proof fn lemma_texts_add(v: Seq<String>, w: Seq<String>)
    ensures
        texts(v + w) == texts(v) + texts(w),
{
    assert(texts(v + w) =~= texts(v) + texts(w));
}

/// Whether a character has the `White_Space` property.
fn white_space(c: char) -> (b: bool)
    ensures
        b == is_white_space(c),
{
    let v = c as u32;
    (0x09 <= v && v <= 0x0d) || v == 0x20 || v == 0x85 || v == 0xa0 || v == 0x1680 || (0x2000
        <= v && v <= 0x200a) || v == 0x2028 || v == 0x2029 || v == 0x202f || v == 0x205f || v
        == 0x3000
}

/// Whether `s` is nothing but white space (so empty once trimmed).
fn blank(s: &str) -> (b: bool)
    ensures
        b == is_blank(s@),
{
    let n = s.unicode_len();
    let mut i: usize = 0;
    while i < n
        invariant
            n == s@.len(),
            i <= n,
            forall|j: int| 0 <= j < i ==> is_white_space(#[trigger] s@[j]),
        decreases n - i,
    {
        let c = s.get_char(i);
        if !white_space(c) {
            return false;
        }
        i = i + 1;
    }
    true
}

/// The messages about the footprint points of `points` that lie off campus.
fn footprint_point_messages(points: &Vec<LatLon>, bounds: &Bounds) -> (r: Vec<String>)
    requires
        bounds.min_lat.bits == CAMPUS_MIN_LAT_BITS,
        bounds.max_lat.bits == CAMPUS_MAX_LAT_BITS,
        bounds.min_lon.bits == CAMPUS_MIN_LON_BITS,
        bounds.max_lon.bits == CAMPUS_MAX_LON_BITS,
    ensures
        texts(r@) == footprint_messages(points@, points@.len()),
{
    let mut r: Vec<String> = Vec::new();
    let mut i: usize = 0;
    while i < points.len()
        invariant
            i <= points@.len(),
            bounds.min_lat.bits == CAMPUS_MIN_LAT_BITS,
            bounds.max_lat.bits == CAMPUS_MAX_LAT_BITS,
            bounds.min_lon.bits == CAMPUS_MIN_LON_BITS,
            bounds.max_lon.bits == CAMPUS_MAX_LON_BITS,
            texts(r@) == footprint_messages(points@, i as nat),
        decreases points.len() - i,
    {
        let point = &points[i];
        if !bounds.contains(point) {
            let mut m = String::from_str("footprint point ");
            m.append(decimal_string(i as u64).as_str());
            m.append(" ");
            m.append(point.shown().as_str());
            m.append(" is outside the campus bounds");
            proof { lemma_texts_push(r@, m); }
            r.push(m);
        }
        proof {
            assert(footprint_messages(points@, (i + 1) as nat) == footprint_messages(points@, i as nat)
                + when(!on_campus(points@[i as int]), footprint_point_message(i as nat, points@[i as int])));
        }
        i = i + 1;
    }
    r
}

/// The messages about the days of `ranges` that close at or before they open.
fn closing_time_messages(ranges: &Vec<(Weekday, TimeRange)>) -> (r: Vec<String>)
    ensures
        texts(r@) == closing_messages(ranges@, ranges@.len()),
{
    let mut r: Vec<String> = Vec::new();
    let mut i: usize = 0;
    while i < ranges.len()
        invariant
            i <= ranges@.len(),
            texts(r@) == closing_messages(ranges@, i as nat),
        decreases ranges.len() - i,
    {
        let (day, range) = ranges[i];
        if !range.open.is_before(&range.close) {
            let mut m = String::from_str(day.name());
            m.append(" closes at ");
            m.append(range.close.to_string().as_str());
            m.append(" which is not after its ");
            m.append(range.open.to_string().as_str());
            m.append(" opening (past-midnight closing times are not representable in v1)");
            proof { lemma_texts_push(r@, m); }
            r.push(m);
        }
        i = i + 1;
    }
    r
}

/// Reports `m` when `cond` holds.
fn report_when(r: &mut Vec<String>, cond: bool, m: String)
    ensures
        texts(final(r)@) == texts(old(r)@) + when(cond, m@),
{
    if cond {
        proof { lemma_texts_push(r@, m); }
        r.push(m);
    }
    assert(texts(r@) =~= texts(old(r)@) + when(cond, m@));
}

/// Reports every message of `more`.
fn report_all(r: &mut Vec<String>, more: Vec<String>)
    ensures
        texts(final(r)@) == texts(old(r)@) + texts(more@),
{
    let mut more = more;
    proof { lemma_texts_add(r@, more@); }
    r.append(&mut more);
}

/// The message of an id that differs from its file name.
fn id_mismatch(id: &String, file_stem: &str) -> (m: String)
    ensures
        m@ == id_mismatch_message(id@, file_stem@),
{
    let mut m = String::from_str("id ");
    m.append(debug_quoted(id.as_str()).as_str());
    m.append(" does not match the filename ");
    m.append(debug_quoted(file_stem).as_str());
    m
}

/// The message of a centroid off campus.
fn centroid_outside(p: &LatLon) -> (m: String)
    ensures
        m@ == centroid_message(*p),
{
    let mut m = String::from_str("centroid ");
    m.append(p.shown().as_str());
    m.append(" is outside the campus bounds — check for transposed lat/lon");
    m
}

/// The message of a footprint of `n` points.
fn short_footprint(n: usize) -> (m: String)
    ensures
        m@ == short_footprint_message(n as nat),
{
    let mut m = String::from_str("footprint has ");
    m.append(decimal_string(n as u64).as_str());
    m.append(" points; a polygon needs at least 3");
    m
}

/// The messages about weekly hours.
fn hours_problems(hours: &Hours) -> (r: Vec<String>)
    ensures
        texts(r@) == hours_messages(*hours),
{
    match hours {
        Hours::Weekly { schedule } => {
            let ranges = schedule.all_ranges();
            closing_time_messages(&ranges)
        },
        _ => {
            let r: Vec<String> = Vec::new();
            assert(texts(r@) =~= Seq::empty());
            r
        },
    }
}

/// The messages about a verification date, on day `today`.
fn verified_problems(last_verified: &Option<Date>, today: Date) -> (r: Vec<String>)
    ensures
        texts(r@) == verified_messages(*last_verified, today),
{
    let mut r: Vec<String> = Vec::new();
    match last_verified {
        Some(verified) => {
            if verified.is_after(&today) {
                let mut m = String::from_str("last_verified ");
                m.append(verified.to_string().as_str());
                m.append(" is in the future");
                proof { lemma_texts_push(r@, m); }
                r.push(m);
            }
        },
        None => {},
    }
    assert(texts(r@) =~= verified_messages(*last_verified, today));
    r
}

/// Every message about `building`, in order.
fn building_problems(building: &Building, file_stem: &str, today: Date) -> (r: Vec<String>)
    ensures
        texts(r@) == building_messages(*building, file_stem@, today),
{
    let mut r: Vec<String> = Vec::new();
    let bounds = campus_bounds();
    let footprint = &building.location.footprint;
    let stem = String::from_str(file_stem);

    let id_differs = building.id != stem;
    report_when(&mut r, id_differs, id_mismatch(&building.id, file_stem));
    report_when(&mut r, blank(building.name.as_str()), String::from_str("name is empty"));
    report_when(
        &mut r,
        building.categories.len() == 0,
        String::from_str("categories is empty; every building needs at least one"),
    );
    let outside = !bounds.contains(&building.location.centroid);
    report_when(&mut r, outside, centroid_outside(&building.location.centroid));
    let short = footprint.len() != 0 && footprint.len() < 3;
    report_when(&mut r, short, short_footprint(footprint.len()));
    report_all(&mut r, footprint_point_messages(footprint, &bounds));
    report_all(&mut r, hours_problems(&building.hours));
    report_all(&mut r, verified_problems(&building.last_verified, today));
    proof {
        assert(texts(Seq::<String>::empty()) =~= Seq::<Seq<char>>::empty());
        assert(texts(r@) =~= building_messages(*building, file_stem@, today));
    }
    r
}

/// Messages about file `file_stem`, made into findings.
fn into_findings(file_stem: &str, messages: Vec<String>) -> (r: Vec<Finding>)
    ensures
        finding_views(r@) == as_findings(file_stem@, texts(messages@)),
{
    let mut r: Vec<Finding> = Vec::new();
    let mut i: usize = 0;
    while i < messages.len()
        invariant
            i <= messages@.len(),
            finding_views(r@) == as_findings(file_stem@, texts(messages@.take(i as int))),
        decreases messages.len() - i,
    {
        let finding = Finding { file: String::from_str(file_stem), message: messages[i].clone() };
        proof {
            assert(finding_views(r@.push(finding)) =~= finding_views(r@).push(finding@));
            assert(texts(messages@.take(i + 1)) =~= texts(messages@.take(i as int)).push(messages@[i as int]@));
            assert(as_findings(file_stem@, texts(messages@.take(i + 1))) =~= as_findings(
                file_stem@,
                texts(messages@.take(i as int)),
            ).push((file_stem@, messages@[i as int]@)));
        }
        r.push(finding);
        i = i + 1;
    }
    assert(messages@.take(messages@.len() as int) =~= messages@);
    r
}

/// Checks one building. `file_stem` is the file name without its extension.
///
/// `today` is passed in rather than read from the clock, so that results are
/// deterministic and testable.
pub fn validate_building(building: &Building, file_stem: &str, today: Date) -> (r: Vec<Finding>)
    ensures
        finding_views(r@) == as_findings(file_stem@, building_messages(*building, file_stem@, today)),
{
    let messages = building_problems(building, file_stem, today);
    into_findings(file_stem, messages)
}

// ---------------------------------------------------------------------------
// The rules of a whole dataset
// ---------------------------------------------------------------------------

/// The position of the latest of the first `k` files whose building has the
/// id of the building of file `i`.
pub open spec fn latest_with_same_id(files: Seq<(String, Building)>, i: int, k: int) -> Option<int>
    decreases k,
{
    if k <= 0 {
        None
    } else if files[k - 1].1.id@ == files[i].1.id@ {
        Some(k - 1)
    } else {
        latest_with_same_id(files, i, k - 1)
    }
}

/// The message of an id already used by the file with stem `previous`.
pub open spec fn duplicate_id_message(id: Seq<char>, previous: Seq<char>) -> Seq<char> {
    "id "@ + debug_text(id) + " is already used by "@ + previous + ".toml"@
}

/// The findings about every one of the first `n` files whose id an earlier
/// file already used; each names the latest such earlier file.
pub open spec fn duplicate_findings(files: Seq<(String, Building)>, n: nat) -> Seq<(Seq<char>, Seq<char>)>
    decreases n,
{
    if n == 0 {
        Seq::empty()
    } else {
        let i = n - 1;
        duplicate_findings(files, (n - 1) as nat) + match latest_with_same_id(files, i, i) {
            Some(j) => seq![(files[i].0@, duplicate_id_message(files[i].1.id@, files[j].0@))],
            None => Seq::empty(),
        }
    }
}

/// The findings of the first `n` files checked one by one, on day `today`.
pub open spec fn file_findings(files: Seq<(String, Building)>, today: Date, n: nat) -> Seq<(Seq<char>, Seq<char>)>
    decreases n,
{
    if n == 0 {
        Seq::empty()
    } else {
        let i = n - 1;
        file_findings(files, today, (n - 1) as nat) + as_findings(
            files[i].0@,
            building_messages(files[i].1, files[i].0@, today),
        )
    }
}

/// Every finding about a set of files on day `today`: those of each file in
/// order, then those about ids used more than once.
pub open spec fn dataset_findings(files: Seq<(String, Building)>, today: Date) -> Seq<(Seq<char>, Seq<char>)> {
    file_findings(files, today, files.len()) + duplicate_findings(files, files.len())
}

/// The latest file before file `i` whose building has the same id.
fn latest_same_id(files: &[(String, Building)], i: usize) -> (r: Option<usize>)
    requires
        i < files@.len(),
    ensures
        r matches Some(j) ==> j < i && latest_with_same_id(files@, i as int, i as int) == Some(j as int),
        r is None ==> latest_with_same_id(files@, i as int, i as int) is None,
{
    let mut k = i;
    while k > 0
        invariant
            k <= i < files@.len(),
            latest_with_same_id(files@, i as int, i as int) == latest_with_same_id(files@, i as int, k as int),
        decreases k,
    {
        if files[k - 1].1.id == files[i].1.id {
            return Some(k - 1);
        }
        k = k - 1;
    }
    None
}

/// The message of an id already used by the file with stem `previous`.
fn duplicate_id(id: &String, previous: &String) -> (m: String)
    ensures
        m@ == duplicate_id_message(id@, previous@),
{
    let mut m = String::from_str("id ");
    m.append(debug_quoted(id.as_str()).as_str());
    m.append(" is already used by ");
    m.append(previous.as_str());
    m.append(".toml");
    m
}

/// Checks a whole set of buildings, including the rules across files.
///
/// Takes `(file_stem, building)` pairs.
pub fn validate_all(buildings: &[(String, Building)], today: Date) -> (r: Vec<Finding>)
    ensures
        finding_views(r@) == dataset_findings(buildings@, today),
{
    let mut findings: Vec<Finding> = Vec::new();
    let mut i: usize = 0;
    while i < buildings.len()
        invariant
            i <= buildings@.len(),
            finding_views(findings@) == file_findings(buildings@, today, i as nat),
        decreases buildings.len() - i,
    {
        let (file_stem, building) = &buildings[i];
        let mut more = validate_building(building, file_stem.as_str(), today);
        proof {
            assert(finding_views(findings@ + more@) =~= finding_views(findings@) + finding_views(more@));
        }
        findings.append(&mut more);
        i = i + 1;
    }

    let ghost per_file = finding_views(findings@);
    let mut i: usize = 0;
    while i < buildings.len()
        invariant
            i <= buildings@.len(),
            per_file == file_findings(buildings@, today, buildings@.len()),
            finding_views(findings@) == per_file + duplicate_findings(buildings@, i as nat),
        decreases buildings.len() - i,
    {
        let ghost before = finding_views(findings@);
        match latest_same_id(buildings, i) {
            Some(j) => {
                let finding = Finding {
                    file: buildings[i].0.clone(),
                    message: duplicate_id(&buildings[i].1.id, &buildings[j].0),
                };
                proof {
                    assert(finding_views(findings@.push(finding)) =~= before.push(finding@));
                }
                findings.push(finding);
            },
            None => {},
        }
        assert(finding_views(findings@) =~= per_file + duplicate_findings(buildings@, (i + 1) as nat));
        i = i + 1;
    }
    findings
}

// ---------------------------------------------------------------------------
// Laws
// ---------------------------------------------------------------------------

/// A position on campus, with latitude and longitude swapped, lies off
/// campus: the bounds catch every transposed coordinate pair.
pub proof fn law_transposed_position_is_off_campus(p: LatLon)
    requires
        on_campus(p),
    ensures
        !on_campus(LatLon { lat: p.lon, lon: p.lat }),
{
}

/// No file precedes the first `k` with the id of file `i` exactly when none
/// of the first `k` files has that id.
proof fn lemma_no_latest_same_id(files: Seq<(String, Building)>, i: int, k: int)
    requires
        0 <= i < files.len(),
        0 <= k <= files.len(),
    ensures
        (latest_with_same_id(files, i, k) is None) <==> (forall|j: int| 0 <= j < k ==> #[trigger] files[j].1.id@ != files[i].1.id@),
    decreases k,
{
    if k > 0 {
        lemma_no_latest_same_id(files, i, k - 1);
    }
}

/// No duplicate finding among the first `n` files exactly when none of them
/// repeats an earlier id.
proof fn lemma_no_duplicate_findings(files: Seq<(String, Building)>, n: nat)
    requires
        n <= files.len(),
    ensures
        (duplicate_findings(files, n).len() == 0) <==> (forall|i: int, j: int| 0 <= j < i < n ==> #[trigger] files[j].1.id@ != #[trigger] files[i].1.id@),
    decreases n,
{
    if n > 0 {
        lemma_no_duplicate_findings(files, (n - 1) as nat);
        let i = n - 1;
        lemma_no_latest_same_id(files, i, i);
        if duplicate_findings(files, n).len() == 0 {
            assert(duplicate_findings(files, (n - 1) as nat).len() == 0);
            assert forall|a: int, b: int| 0 <= b < a < n implies #[trigger] files[b].1.id@ != #[trigger] files[a].1.id@ by {
                if a < n - 1 {
                } else {
                    assert(files[b].1.id@ != files[i].1.id@);
                }
            }
        } else {
            if forall|a: int, b: int| 0 <= b < a < n ==> #[trigger] files[b].1.id@ != #[trigger] files[a].1.id@ {
                assert forall|a: int, b: int| 0 <= b < a < n - 1 implies #[trigger] files[b].1.id@ != #[trigger] files[a].1.id@ by {
                }
                assert forall|b: int| 0 <= b < i implies #[trigger] files[b].1.id@ != files[i].1.id@ by {
                }
                assert(false);
            }
        }
    }
}

/// The check across files finds a repeated id exactly when two files hold
/// buildings with the same id: ids must be unique across all files.
pub proof fn law_duplicate_ids_are_found(files: Seq<(String, Building)>)
    ensures
        (duplicate_findings(files, files.len()).len() == 0) <==> (forall|i: int, j: int| 0 <= j < i < files.len() ==> #[trigger] files[j].1.id@ != #[trigger] files[i].1.id@),
{
    lemma_no_duplicate_findings(files, files.len());
}

/// An empty dataset has no findings.
pub proof fn law_empty_dataset_is_valid(today: Date)
    ensures
        dataset_findings(Seq::empty(), today) == Seq::<(Seq<char>, Seq<char>)>::empty(),
{
    assert(dataset_findings(Seq::empty(), today) =~= Seq::<(Seq<char>, Seq<char>)>::empty());
}

/// Whether building `b`, read from the file with stem `file`, keeps every
/// rule on day `today`.
pub open spec fn keeps_every_rule(b: Building, file: Seq<char>, today: Date) -> bool {
    let footprint = b.location.footprint@;
    &&& b.id@ == file
    &&& !is_blank(b.name@)
    &&& b.categories@.len() != 0
    &&& on_campus(b.location.centroid)
    &&& (footprint.len() == 0 || footprint.len() >= 3)
    &&& forall|i: int| 0 <= i < footprint.len() ==> on_campus(#[trigger] footprint[i])
    &&& match b.hours {
        Hours::Weekly { schedule } => forall|d: Weekday| #[trigger] schedule.range_on(d) is Some
            ==> time_precedes(schedule.range_on(d)->0.open@, schedule.range_on(d)->0.close@),
        _ => true,
    }
    &&& match b.last_verified {
        Some(d) => !date_precedes(today@, d@),
        None => true,
    }
}

/// No message about the first `n` points exactly when they all lie on
/// campus.
proof fn lemma_footprint_messages_empty(points: Seq<LatLon>, n: nat)
    requires
        n <= points.len(),
    ensures
        (footprint_messages(points, n).len() == 0) <==> (forall|i: int| 0 <= i < n ==> on_campus(#[trigger] points[i])),
    decreases n,
{
    if n > 0 {
        lemma_footprint_messages_empty(points, (n - 1) as nat);
        if forall|i: int| 0 <= i < n - 1 ==> on_campus(#[trigger] points[i]) {
            if on_campus(points[n - 1]) {
                assert forall|i: int| 0 <= i < n implies on_campus(#[trigger] points[i]) by {
                    if i < n - 1 {
                    }
                }
            }
        }
    }
}

/// No message about the first `n` ranges exactly when each closes after it
/// opens.
proof fn lemma_closing_messages_empty(ranges: Seq<(Weekday, TimeRange)>, n: nat)
    requires
        n <= ranges.len(),
    ensures
        (closing_messages(ranges, n).len() == 0) <==> (forall|i: int| 0 <= i < n ==> time_precedes(
            (#[trigger] ranges[i]).1.open@,
            ranges[i].1.close@,
        )),
    decreases n,
{
    if n > 0 {
        lemma_closing_messages_empty(ranges, (n - 1) as nat);
        if forall|i: int| 0 <= i < n - 1 ==> time_precedes((#[trigger] ranges[i]).1.open@, ranges[i].1.close@) {
            if time_precedes(ranges[n - 1].1.open@, ranges[n - 1].1.close@) {
                assert forall|i: int| 0 <= i < n implies time_precedes(
                    (#[trigger] ranges[i]).1.open@,
                    ranges[i].1.close@,
                ) by {
                    if i < n - 1 {
                    }
                }
            }
        }
    }
}

/// A property holds of every listed range exactly when it holds of the
/// range of every entry that has one.
proof fn lemma_days_with_ranges_all(e: Seq<(Weekday, Option<TimeRange>)>, p: spec_fn(TimeRange) -> bool)
    ensures
        (forall|i: int| 0 <= i < days_with_ranges(e).len() ==> p(#[trigger] days_with_ranges(e)[i].1))
            <==> (forall|j: int| 0 <= j < e.len() && (#[trigger] e[j]).1 is Some ==> p(e[j].1->0)),
    decreases e.len(),
{
    if e.len() > 0 {
        let rest = e.drop_last();
        lemma_days_with_ranges_all(rest, p);
        let listed = days_with_ranges(e);
        let before = days_with_ranges(rest);
        assert forall|j: int| 0 <= j < rest.len() implies #[trigger] rest[j] == e[j] by {}
        if forall|i: int| 0 <= i < listed.len() ==> p(#[trigger] listed[i].1) {
            assert forall|i: int| 0 <= i < before.len() implies p(#[trigger] before[i].1) by {
                assert(listed[i] == before[i]);
            }
            assert forall|j: int| 0 <= j < e.len() && (#[trigger] e[j]).1 is Some implies p(e[j].1->0) by {
                if j < e.len() - 1 {
                    assert(rest[j] == e[j]);
                } else {
                    assert(listed[listed.len() - 1].1 == e[j].1->0);
                }
            }
        }
        if forall|j: int| 0 <= j < e.len() && (#[trigger] e[j]).1 is Some ==> p(e[j].1->0) {
            assert forall|j: int| 0 <= j < rest.len() && (#[trigger] rest[j]).1 is Some implies p(rest[j].1->0) by {
                assert(rest[j] == e[j]);
            }
            assert forall|i: int| 0 <= i < listed.len() implies p(#[trigger] listed[i].1) by {
                if i < before.len() {
                    assert(listed[i] == before[i]);
                } else {
                    assert(e[e.len() - 1].1 is Some);
                }
            }
        }
    }
}

/// No message about weekly hours exactly when each day that has a range
/// closes after it opens.
proof fn lemma_hours_messages_empty(h: Hours)
    ensures
        (hours_messages(h).len() == 0) <==> match h {
            Hours::Weekly { schedule } => forall|d: Weekday| #[trigger] schedule.range_on(d) is Some
                ==> time_precedes(schedule.range_on(d)->0.open@, schedule.range_on(d)->0.close@),
            _ => true,
        },
{
    match h {
        Hours::Weekly { schedule } => {
            let w = schedule.week();
            let listed = days_with_ranges(w);
            let p = |r: TimeRange| time_precedes(r.open@, r.close@);
            lemma_closing_messages_empty(listed, listed.len());
            lemma_days_with_ranges_all(w, p);
            let by_day = forall|d: Weekday| #[trigger] schedule.range_on(d) is Some
                ==> time_precedes(schedule.range_on(d)->0.open@, schedule.range_on(d)->0.close@);
            let by_entry = forall|j: int| 0 <= j < w.len() && (#[trigger] w[j]).1 is Some ==> p(w[j].1->0);
            assert(w[0].0 == Weekday::Mon && w[1].0 == Weekday::Tue && w[2].0 == Weekday::Wed
                && w[3].0 == Weekday::Thu && w[4].0 == Weekday::Fri && w[5].0 == Weekday::Sat
                && w[6].0 == Weekday::Sun);
            assert forall|j: int| 0 <= j < w.len() implies (#[trigger] w[j]).1 == schedule.range_on(w[j].0) by {}
            if by_day {
                assert forall|j: int| 0 <= j < w.len() && (#[trigger] w[j]).1 is Some implies p(w[j].1->0) by {
                    assert(schedule.range_on(w[j].0) is Some);
                }
            }
            if by_entry {
                assert forall|d: Weekday| #[trigger] schedule.range_on(d) is Some implies time_precedes(
                    schedule.range_on(d)->0.open@,
                    schedule.range_on(d)->0.close@,
                ) by {
                    let j: int = match d {
                        Weekday::Mon => 0,
                        Weekday::Tue => 1,
                        Weekday::Wed => 2,
                        Weekday::Thu => 3,
                        Weekday::Fri => 4,
                        Weekday::Sat => 5,
                        Weekday::Sun => 6,
                    };
                    assert(w[j].0 == d);
                    assert(w[j].1 is Some);
                }
            }
        },
        _ => {},
    }
}

/// A building gets no findings exactly when it keeps every rule: the rules
/// catch every problem they describe, and nothing else.
pub proof fn law_no_findings_iff_every_rule_kept(b: Building, file: Seq<char>, today: Date)
    ensures
        (building_messages(b, file, today).len() == 0) <==> keeps_every_rule(b, file, today),
{
    let footprint = b.location.footprint@;
    lemma_footprint_messages_empty(footprint, footprint.len());
    lemma_hours_messages_empty(b.hours);
}

/// Whether every message of `ms` is non-empty and does not begin with `ch`.
spec fn heads_differ(ms: Seq<Seq<char>>, ch: char) -> bool {
    forall|k: int| 0 <= k < ms.len() ==> (#[trigger] ms[k]).len() > 0 && ms[k][0] != ch
}

/// Joining two lists of messages keeps their first characters.
proof fn lemma_heads_differ_add(a: Seq<Seq<char>>, b: Seq<Seq<char>>, ch: char)
    requires
        heads_differ(a, ch),
        heads_differ(b, ch),
    ensures
        heads_differ(a + b, ch),
{
    assert forall|k: int| 0 <= k < (a + b).len() implies (#[trigger] (a + b)[k]).len() > 0 && (a
        + b)[k][0] != ch by {
        if k < a.len() {
            assert((a + b)[k] == a[k]);
        } else {
            assert((a + b)[k] == b[k - a.len()]);
        }
    }
}

/// A message given when a condition holds begins as the message does.
proof fn lemma_heads_differ_when(cond: bool, m: Seq<char>, ch: char)
    requires
        m.len() > 0,
        m[0] != ch,
    ensures
        heads_differ(when(cond, m), ch),
{
}

/// Every message about footprint points begins with `f`.
proof fn lemma_footprint_messages_heads(points: Seq<LatLon>, n: nat)
    ensures
        heads_differ(footprint_messages(points, n), 'n'),
    decreases n,
{
    if n > 0 {
        reveal_strlit("footprint point ");
        lemma_footprint_messages_heads(points, (n - 1) as nat);
        let m = footprint_point_message((n - 1) as nat, points[n - 1]);
        assert(m[0] == 'f');
        lemma_heads_differ_when(!on_campus(points[n - 1]), m, 'n');
        lemma_heads_differ_add(
            footprint_messages(points, (n - 1) as nat),
            when(!on_campus(points[n - 1]), m),
            'n',
        );
    }
}

/// Every message about closing times begins with the name of a day.
proof fn lemma_closing_messages_heads(ranges: Seq<(Weekday, TimeRange)>, n: nat)
    ensures
        heads_differ(closing_messages(ranges, n), 'n'),
    decreases n,
{
    if n > 0 {
        reveal_strlit("Mon");
        reveal_strlit("Tue");
        reveal_strlit("Wed");
        reveal_strlit("Thu");
        reveal_strlit("Fri");
        reveal_strlit("Sat");
        reveal_strlit("Sun");
        lemma_closing_messages_heads(ranges, (n - 1) as nat);
        let (day, r) = ranges[n - 1];
        let m = closing_message(day, r);
        assert(weekday_name(day).len() == 3 && weekday_name(day)[0] != 'n');
        assert(m[0] == weekday_name(day)[0]);
        lemma_heads_differ_when(!time_precedes(r.open@, r.close@), m, 'n');
        lemma_heads_differ_add(
            closing_messages(ranges, (n - 1) as nat),
            when(!time_precedes(r.open@, r.close@), m),
            'n',
        );
    }
}

/// The messages about building `b` that come after the one about its name.
spec fn messages_after_name(b: Building, today: Date) -> Seq<Seq<char>> {
    let footprint = b.location.footprint@;
    when(b.categories@.len() == 0, no_categories_message()) + (when(
        !on_campus(b.location.centroid),
        centroid_message(b.location.centroid),
    ) + (when(footprint.len() != 0 && footprint.len() < 3, short_footprint_message(footprint.len()))
        + (footprint_messages(footprint, footprint.len()) + (hours_messages(b.hours)
        + verified_messages(b.last_verified, today)))))
}

/// The messages about a building are the one about its id, the one about its
/// name, and the rest.
proof fn lemma_messages_split(b: Building, file: Seq<char>, today: Date)
    ensures
        building_messages(b, file, today) == when(b.id@ != file, id_mismatch_message(b.id@, file))
            + (when(is_blank(b.name@), empty_name_message()) + messages_after_name(b, today)),
{
    let footprint = b.location.footprint@;
    let p1 = when(b.id@ != file, id_mismatch_message(b.id@, file));
    let p2 = when(is_blank(b.name@), empty_name_message());
    let p3 = when(b.categories@.len() == 0, no_categories_message());
    let p4 = when(!on_campus(b.location.centroid), centroid_message(b.location.centroid));
    let p5 = when(
        footprint.len() != 0 && footprint.len() < 3,
        short_footprint_message(footprint.len()),
    );
    let p6 = footprint_messages(footprint, footprint.len());
    let p7 = hours_messages(b.hours);
    let p8 = verified_messages(b.last_verified, today);
    let t7 = p7 + p8;
    let t6 = p6 + t7;
    let t5 = p5 + t6;
    let t4 = p4 + t5;
    let t3 = p3 + t4;
    let l2 = p1 + p2;
    let l3 = l2 + p3;
    let l4 = l3 + p4;
    let l5 = l4 + p5;
    let l6 = l5 + p6;
    lemma_add_assoc(l6, p7, p8);
    lemma_add_assoc(l5, p6, t7);
    lemma_add_assoc(l4, p5, t6);
    lemma_add_assoc(l3, p4, t5);
    lemma_add_assoc(l2, p3, t4);
    lemma_add_assoc(p1, p2, t3);
    assert(messages_after_name(b, today) == t3);
}

/// Joining sequences is associative.
proof fn lemma_add_assoc<A>(a: Seq<A>, b: Seq<A>, c: Seq<A>)
    ensures
        (a + b) + c == a + (b + c),
{
    assert((a + b) + c =~= a + (b + c));
}

/// No message about the id or after the name begins with `n`.
proof fn lemma_other_messages_heads(b: Building, file: Seq<char>, today: Date)
    ensures
        heads_differ(when(b.id@ != file, id_mismatch_message(b.id@, file)), 'n'),
        heads_differ(messages_after_name(b, today), 'n'),
{
    reveal_strlit("id ");
    reveal_strlit("categories is empty; every building needs at least one");
    reveal_strlit("centroid ");
    reveal_strlit("footprint has ");
    reveal_strlit("last_verified ");
    let footprint = b.location.footprint@;
    let p3 = when(b.categories@.len() == 0, no_categories_message());
    let p4 = when(!on_campus(b.location.centroid), centroid_message(b.location.centroid));
    let p5 = when(
        footprint.len() != 0 && footprint.len() < 3,
        short_footprint_message(footprint.len()),
    );
    let p6 = footprint_messages(footprint, footprint.len());
    let p7 = hours_messages(b.hours);
    let p8 = verified_messages(b.last_verified, today);
    assert(id_mismatch_message(b.id@, file)[0] == 'i');
    lemma_heads_differ_when(b.id@ != file, id_mismatch_message(b.id@, file), 'n');
    lemma_heads_differ_when(b.categories@.len() == 0, no_categories_message(), 'n');
    assert(centroid_message(b.location.centroid)[0] == 'c');
    lemma_heads_differ_when(!on_campus(b.location.centroid), centroid_message(b.location.centroid), 'n');
    assert(short_footprint_message(footprint.len())[0] == 'f');
    lemma_heads_differ_when(
        footprint.len() != 0 && footprint.len() < 3,
        short_footprint_message(footprint.len()),
        'n',
    );
    lemma_footprint_messages_heads(footprint, footprint.len());
    match b.hours {
        Hours::Weekly { schedule } => {
            let ranges = days_with_ranges(schedule.week());
            lemma_closing_messages_heads(ranges, ranges.len());
        },
        _ => {},
    }
    match b.last_verified {
        Some(d) => {
            assert(future_date_message(d@)[0] == 'l');
            lemma_heads_differ_when(date_precedes(today@, d@), future_date_message(d@), 'n');
        },
        None => {},
    }
    lemma_heads_differ_add(p7, p8, 'n');
    lemma_heads_differ_add(p6, p7 + p8, 'n');
    lemma_heads_differ_add(p5, p6 + (p7 + p8), 'n');
    lemma_heads_differ_add(p4, p5 + (p6 + (p7 + p8)), 'n');
    lemma_heads_differ_add(p3, p4 + (p5 + (p6 + (p7 + p8))), 'n');
}

/// A building's name is reported empty exactly when every character of it
/// is white space (as `str::trim` takes it off): a name that holds any other
/// character, wherever it stands, gets no such finding.
pub proof fn law_name_reported_empty_iff_all_white_space(b: Building, file: Seq<char>, today: Date)
    ensures
        building_messages(b, file, today).contains(empty_name_message()) <==> (forall|c: char|
            #[trigger] b.name@.contains(c) ==> is_white_space(c)),
{
    reveal_strlit("name is empty");
    let p1 = when(b.id@ != file, id_mismatch_message(b.id@, file));
    let p2 = when(is_blank(b.name@), empty_name_message());
    let rest = messages_after_name(b, today);
    let ms = building_messages(b, file, today);
    lemma_messages_split(b, file, today);
    lemma_other_messages_heads(b, file, today);
    let all_white = forall|c: char| #[trigger] b.name@.contains(c) ==> is_white_space(c);
    if all_white {
        assert forall|i: int| 0 <= i < b.name@.len() implies is_white_space(#[trigger] b.name@[i]) by {
            assert(b.name@.contains(b.name@[i]));
        }
        assert((p2 + rest)[0] == empty_name_message());
        assert(ms[p1.len() as int] == empty_name_message());
    }
    if ms.contains(empty_name_message()) {
        if !is_blank(b.name@) {
            assert(p2 + rest =~= rest);
            lemma_heads_differ_add(p1, rest, 'n');
            let k = choose|k: int| 0 <= k < ms.len() && ms[k] == empty_name_message();
            assert(ms[k][0] == 'n');
            assert(false);
        }
        assert forall|c: char| #[trigger] b.name@.contains(c) implies is_white_space(c) by {
            let i = choose|i: int| 0 <= i < b.name@.len() && b.name@[i] == c;
            assert(is_white_space(b.name@[i]));
        }
    }
}

/// The messages about file `i`, for `i` below `n`, are among the findings of
/// the first `n` files.
proof fn lemma_file_findings_hold(files: Seq<(String, Building)>, today: Date, n: nat, i: int, m: Seq<char>)
    requires
        n <= files.len(),
        0 <= i < n,
        building_messages(files[i].1, files[i].0@, today).contains(m),
    ensures
        file_findings(files, today, n).contains((files[i].0@, m)),
    decreases n,
{
    let before = file_findings(files, today, (n - 1) as nat);
    let last = as_findings(files[n - 1].0@, building_messages(files[n - 1].1, files[n - 1].0@, today));
    assert(file_findings(files, today, n) == before + last);
    if i == n - 1 {
        let msgs = building_messages(files[i].1, files[i].0@, today);
        let k = choose|k: int| 0 <= k < msgs.len() && msgs[k] == m;
        assert(last[k] == (files[i].0@, m));
        assert((before + last)[before.len() + k] == (files[i].0@, m));
    } else {
        lemma_file_findings_hold(files, today, (n - 1) as nat, i, m);
        let k = choose|k: int| 0 <= k < before.len() && before[k] == (files[i].0@, m);
        assert((before + last)[k] == (files[i].0@, m));
    }
}

/// Every file of a dataset is checked by the rules of one building, the
/// first file as much as any other: each message about a file is a finding
/// of the dataset, under that file's name.
pub proof fn law_every_file_is_checked(files: Seq<(String, Building)>, today: Date, i: int, m: Seq<char>)
    requires
        0 <= i < files.len(),
        building_messages(files[i].1, files[i].0@, today).contains(m),
    ensures
        dataset_findings(files, today).contains((files[i].0@, m)),
{
    lemma_file_findings_hold(files, today, files.len(), i, m);
    let ff = file_findings(files, today, files.len());
    let k = choose|k: int| 0 <= k < ff.len() && ff[k] == (files[i].0@, m);
    assert(dataset_findings(files, today)[k] == (files[i].0@, m));
}

/// A dataset without findings holds only files that keep every rule of one
/// building.
pub proof fn law_clean_dataset_keeps_every_rule(files: Seq<(String, Building)>, today: Date)
    requires
        dataset_findings(files, today).len() == 0,
    ensures
        forall|i: int| 0 <= i < files.len() ==> keeps_every_rule(#[trigger] files[i].1, files[i].0@, today),
{
    assert forall|i: int| 0 <= i < files.len() implies keeps_every_rule(
        #[trigger] files[i].1,
        files[i].0@,
        today,
    ) by {
        let msgs = building_messages(files[i].1, files[i].0@, today);
        if msgs.len() > 0 {
            assert(msgs.contains(msgs[0]));
            law_every_file_is_checked(files, today, i, msgs[0]);
        }
        law_no_findings_iff_every_rule_kept(files[i].1, files[i].0@, today);
    }
}

/// The findings of a dataset of one file are the findings of that file by
/// the rules of one building, in the same order, and nothing more.
pub proof fn law_one_file_dataset(file: String, b: Building, today: Date)
    ensures
        dataset_findings(seq![(file, b)], today) == as_findings(file@, building_messages(b, file@, today)),
{
    let files = seq![(file, b)];
    assert(file_findings(files, today, 0) =~= Seq::<(Seq<char>, Seq<char>)>::empty());
    assert(latest_with_same_id(files, 0, 0) is None);
    assert(duplicate_findings(files, 0) =~= Seq::<(Seq<char>, Seq<char>)>::empty());
    assert(duplicate_findings(files, 1) =~= Seq::<(Seq<char>, Seq<char>)>::empty());
    assert(dataset_findings(files, today) =~= as_findings(file@, building_messages(b, file@, today)));
}

} // verus!
