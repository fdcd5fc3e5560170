//! Stations: where a location code is, and what it is called.

use vstd::prelude::*;
use crate::table::StringMap;
use crate::text::chars_of;
use crate::text::decimal_value;
use crate::text::field_or;
use crate::text::field_or_of;
use crate::text::is_digit;
use crate::text::is_digits;
use crate::text::lemma_decimal_value_bound;
use crate::text::lemma_trimmed_shorter;
use crate::text::pow10;
use crate::text::starts_with_char;
use crate::text::trim;
use crate::text::trimmed;
use crate::text::trimmed_field;

verus! {

/// A point on the globe in units of 10^-7 degree.
#[derive(Clone, Copy, Debug, PartialEq, Eq, Structural)]
pub struct GeoPoint {
    pub lat: i32,
    pub lon: i32,
}

impl View for GeoPoint {
    type V = GeoPoint;

    open spec fn view(&self) -> GeoPoint {
        *self
    }
}

/// Where a station is: a geocoded point, or a position on the national grid
/// in metres.
#[derive(Clone, Copy, Debug, PartialEq, Eq, Structural)]
pub enum Position {
    Geocoded(GeoPoint),
    Grid { easting: u32, northing: u32 },
}

/// A station of the timetable.
pub struct Station {
    pub tiploc: String,
    pub name: String,
    pub position: Position,
}

/// The model of [`Station`] in contracts.
pub struct StationView {
    pub tiploc: Seq<char>,
    pub name: Seq<char>,
    pub position: Position,
}

impl View for Station {
    type V = StationView;

    open spec fn view(&self) -> StationView {
        StationView { tiploc: self.tiploc@, name: self.name@, position: self.position }
    }
}

/// Stations by location code.
pub type StationTable = StringMap<Station>;

/// Geocoded points by short station code.
pub type GeoLookup = StringMap<GeoPoint>;

/// The views of a run of lines.
pub open spec fn line_views(lines: Seq<String>) -> Seq<Seq<char>> {
    lines.map_values(|l: String| l@)
}

/// The grid coordinate, in metres, that a coordinate column states. The
/// column holds hundreds of metres as a decimal number; a column that is
/// not a number stands for zero.
pub open spec fn grid_metres(column: Seq<char>) -> nat {
    if is_digits(trimmed(column)) {
        100 * decimal_value(trimmed(column))
    } else {
        0
    }
}

/// Whether `line` is a station record: it begins with the marker `A`.
pub open spec fn is_station_line(line: Seq<char>) -> bool {
    line.len() > 0 && line[0] == 'A'
}

/// The location code of a station record.
pub open spec fn station_code_of(line: Seq<char>) -> Seq<char> {
    trimmed(field_or_of(line, 36, 43, ""@))
}

/// The short station code of a station record.
pub open spec fn short_code_of(line: Seq<char>) -> Seq<char> {
    trimmed(field_or_of(line, 49, 52, ""@))
}

/// The grid position that a station record states.
pub open spec fn grid_position_of(line: Seq<char>) -> Position {
    Position::Grid {
        easting: grid_metres(field_or_of(line, 52, 57, "0"@)) as u32,
        northing: grid_metres(field_or_of(line, 58, 63, "0"@)) as u32,
    }
}

/// Where the station of a station record is: at the geocoded point of its
/// short code when the lookup has one, else at the grid position that the
/// record states.
pub open spec fn position_of(line: Seq<char>, lookup: Map<Seq<char>, GeoPoint>) -> Position {
    if lookup.contains_key(short_code_of(line)) {
        Position::Geocoded(lookup[short_code_of(line)])
    } else {
        grid_position_of(line)
    }
}

/// The station that a line defines: a station record with a non-empty
/// location code defines one, any other line none.
pub open spec fn station_of(line: Seq<char>, lookup: Map<Seq<char>, GeoPoint>) -> Option<
    StationView,
> {
    if is_station_line(line) && station_code_of(line).len() > 0 {
        Some(
            StationView {
                tiploc: station_code_of(line),
                name: trimmed(field_or_of(line, 5, 31, ""@)),
                position: position_of(line, lookup),
            },
        )
    } else {
        None
    }
}

/// The table after the stations of `lines` have been entered in order, a
/// later station replacing an earlier one with the same location code.
pub open spec fn stations_after(
    table: Map<Seq<char>, StationView>,
    lines: Seq<Seq<char>>,
    lookup: Map<Seq<char>, GeoPoint>,
) -> Map<Seq<char>, StationView>
    decreases lines.len(),
{
    if lines.len() == 0 {
        table
    } else {
        let before = stations_after(table, lines.drop_last(), lookup);
        match station_of(lines.last(), lookup) {
            Some(station) => before.insert(station.tiploc, station),
            None => before,
        }
    }
}

/// A coordinate column of at most five characters states less than ten
/// thousand kilometres.
pub proof fn lemma_grid_metres_bound(column: Seq<char>)
    requires
        column.len() <= 5,
    ensures
        grid_metres(column) <= 9_999_900,
{
    let t = trimmed(column);
    lemma_trimmed_shorter(column);
    if is_digits(t) {
        lemma_decimal_value_bound(t);
        reveal_with_fuel(pow10, 6);
    }
}

/// The geocode lookup is authoritative: a station whose short code the
/// lookup knows is exactly at the lookup's point. The grid position that
/// its record states plays no part: any other record with that short code
/// gives the same position.
pub proof fn lemma_lookup_is_authoritative(
    line: Seq<char>,
    other: Seq<char>,
    lookup: Map<Seq<char>, GeoPoint>,
)
    requires
        lookup.contains_key(short_code_of(line)),
        short_code_of(other) == short_code_of(line),
    ensures
        position_of(line, lookup) == Position::Geocoded(lookup[short_code_of(line)]),
        position_of(other, lookup) == position_of(line, lookup),
        station_of(line, lookup) matches Some(station) ==> station.position == Position::Geocoded(
            lookup[short_code_of(line)],
        ),
{
}

/// The last record of a location code decides its station: after the lines
/// have been entered, the table holds for that code exactly what the record
/// defines.
pub proof fn lemma_last_record_wins(
    table: Map<Seq<char>, StationView>,
    lines: Seq<Seq<char>>,
    lookup: Map<Seq<char>, GeoPoint>,
    i: int,
)
    requires
        0 <= i < lines.len(),
        station_of(lines[i], lookup) is Some,
        forall|j: int|
            i < j < lines.len() ==> station_code_of(#[trigger] lines[j]) != station_code_of(
                lines[i],
            ),
    ensures
        stations_after(table, lines, lookup).contains_key(station_code_of(lines[i])),
        stations_after(table, lines, lookup)[station_code_of(lines[i])] == station_of(
            lines[i],
            lookup,
        )->0,
    decreases lines.len(),
{
    if i < lines.len() - 1 {
        let shorter = lines.drop_last();
        lemma_last_record_wins(table, shorter, lookup, i);
    }
}

fn grid_metres_of(column: &str) -> (r: u32)
    requires
        column@.len() <= 5,
    ensures
        r == grid_metres(column@),
{
    let t = chars_of(trim(column));
    proof {
        lemma_trimmed_shorter(column@);
    }
    if t.len() == 0 {
        return 0;
    }
    let mut value: u32 = 0;
    let mut i: usize = 0;
    while i < t.len()
        invariant
            i <= t.len() <= 5,
            t@ == trimmed(column@),
            forall|j: int| 0 <= j < i ==> is_digit(#[trigger] t@[j]),
            value == decimal_value(t@.take(i as int)),
            value < 100_000,
        decreases t.len() - i,
    {
        let c = t[i];
        if !(c >= '0' && c <= '9') {
            return 0;
        }
        proof {
            let next = t@.take(i as int + 1);
            assert(next.drop_last() =~= t@.take(i as int));
            lemma_decimal_value_bound(next);
            reveal_with_fuel(pow10, 6);
        }
        value = value * 10 + (c as u32 - '0' as u32);
        i = i + 1;
    }
    assert(t@.take(i as int) =~= t@);
    value * 100
}

/// Reads the station that a line defines, if it defines one.
pub fn read_station(line: &str, lookup: &GeoLookup) -> (r: Option<Station>)
    requires
        lookup.wf(),
    ensures
        match r {
            Some(station) => station_of(line@, lookup@) == Some(station@),
            None => station_of(line@, lookup@) is None,
        },
{
    if !starts_with_char(line, 'A') {
        return None;
    }
    let tiploc = trimmed_field(line, 36, 43, "");
    if tiploc.as_str().is_empty() {
        return None;
    }
    let position = match lookup.get(trim(field_or(line, 49, 52, ""))) {
        Some(point) => Position::Geocoded(*point),
        None => {
            proof {
                reveal_strlit("0");
                lemma_grid_metres_bound(field_or_of(line@, 52, 57, "0"@));
                lemma_grid_metres_bound(field_or_of(line@, 58, 63, "0"@));
            }
            Position::Grid {
                easting: grid_metres_of(field_or(line, 52, 57, "0")),
                northing: grid_metres_of(field_or(line, 58, 63, "0")),
            }
        },
    };
    Some(Station { tiploc, name: trimmed_field(line, 5, 31, ""), position })
}

/// Enters the stations that `lines` define into `map`, in order. A later
/// record of a location code replaces an earlier one.
pub fn parse_msn(lines: &Vec<String>, map: &mut StationTable, osm_lookup: &GeoLookup)
    requires
        old(map).wf(),
        osm_lookup.wf(),
    ensures
        final(map).wf(),
        final(map)@ == stations_after(old(map)@, line_views(lines@), osm_lookup@),
{
    let ghost all = line_views(lines@);
    let ghost start = map@;
    let mut i: usize = 0;
    while i < lines.len()
        invariant
            i <= lines.len(),
            map.wf(),
            osm_lookup.wf(),
            all == line_views(lines@),
            map@ == stations_after(start, all.take(i as int), osm_lookup@),
        decreases lines.len() - i,
    {
        proof {
            let next = all.take(i as int + 1);
            assert(next.drop_last() =~= all.take(i as int));
        }
        match read_station(lines[i].as_str(), osm_lookup) {
            Some(station) => {
                map.insert(station.tiploc.clone(), station);
            },
            None => {},
        }
        i = i + 1;
    }
    assert(all.take(i as int) =~= all);
}

} // verus!
