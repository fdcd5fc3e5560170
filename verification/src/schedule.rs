//! The record state machine: schedule lines in, finished trips and
//! association records out.
//!
//! The machine is either idle or accumulating one trip. A schedule-basic
//! record opens a trip (or, when it is a cancellation, drops the open one);
//! location records add stops; the terminal record closes the trip and emits
//! it. Association records are emitted as they come, whatever the state.

use vstd::prelude::*;
use crate::station::StationTable;
use crate::station::StationView;
use crate::text::field;
use crate::text::field_or;
use crate::text::field_or_of;
use crate::text::join;
use crate::text::owned_field;
use crate::text::same_text;
use crate::text::trim;
use crate::text::trimmed;
use crate::text::trimmed_field;
use crate::time::clock_text;
use crate::time::format_time;
use crate::time::numeric_chars;

verus! {

/// A stop of a trip under assembly: where, and the scheduled times.
pub struct StopEvent {
    pub stop_id: String,
    pub arrival_time: String,
    pub departure_time: String,
}

/// The model of [`StopEvent`] in contracts.
pub struct StopEventView {
    pub stop_id: Seq<char>,
    pub arrival_time: Seq<char>,
    pub departure_time: Seq<char>,
}

impl View for StopEvent {
    type V = StopEventView;

    open spec fn view(&self) -> StopEventView {
        StopEventView {
            stop_id: self.stop_id@,
            arrival_time: self.arrival_time@,
            departure_time: self.departure_time@,
        }
    }
}

/// The views of a run of stops.
pub open spec fn stop_views(stops: Seq<StopEvent>) -> Seq<StopEventView> {
    stops.map_values(|e: StopEvent| e@)
}

/// A trip under assembly.
pub struct TripState {
    /// The identifier of the schedule that the trip comes from.
    pub uid: String,
    /// The first day of validity, as `YYMMDD`.
    pub date_start: String,
    /// The last day of validity, as `YYMMDD`.
    pub date_end: String,
    /// The running days, Monday first: `1` where the trip runs.
    pub days_run: String,
    /// The revision indicator of the schedule.
    pub stp_ind: String,
    /// The operator code; `NR` until a schedule-extra record names one.
    pub atoc_code: String,
    /// The short train identifier.
    pub train_identity: String,
    /// The name of the origin station; empty until the origin is known.
    pub origin_name: String,
    /// The name of the terminal station; empty until the trip is closed.
    pub dest_name: String,
    /// The stops gathered so far, in order.
    pub stops: Vec<StopEvent>,
}

/// The model of [`TripState`] in contracts.
pub struct TripStateView {
    pub uid: Seq<char>,
    pub date_start: Seq<char>,
    pub date_end: Seq<char>,
    pub days_run: Seq<char>,
    pub stp_ind: Seq<char>,
    pub atoc_code: Seq<char>,
    pub train_identity: Seq<char>,
    pub origin_name: Seq<char>,
    pub dest_name: Seq<char>,
    pub stops: Seq<StopEventView>,
}

impl View for TripState {
    type V = TripStateView;

    open spec fn view(&self) -> TripStateView {
        TripStateView {
            uid: self.uid@,
            date_start: self.date_start@,
            date_end: self.date_end@,
            days_run: self.days_run@,
            stp_ind: self.stp_ind@,
            atoc_code: self.atoc_code@,
            train_identity: self.train_identity@,
            origin_name: self.origin_name@,
            dest_name: self.dest_name@,
            stops: stop_views(self.stops@),
        }
    }
}

/// An association between two schedules, as its record states it.
pub struct Association {
    pub base_uid: String,
    pub assoc_uid: String,
    pub start_date: String,
    pub end_date: String,
    pub days_run: String,
    pub category: String,
    pub location: String,
    pub assoc_type: String,
    pub stp_indicator: String,
}

/// The model of [`Association`] in contracts.
pub struct AssociationView {
    pub base_uid: Seq<char>,
    pub assoc_uid: Seq<char>,
    pub start_date: Seq<char>,
    pub end_date: Seq<char>,
    pub days_run: Seq<char>,
    pub category: Seq<char>,
    pub location: Seq<char>,
    pub assoc_type: Seq<char>,
    pub stp_indicator: Seq<char>,
}

impl View for Association {
    type V = AssociationView;

    open spec fn view(&self) -> AssociationView {
        AssociationView {
            base_uid: self.base_uid@,
            assoc_uid: self.assoc_uid@,
            start_date: self.start_date@,
            end_date: self.end_date@,
            days_run: self.days_run@,
            category: self.category@,
            location: self.location@,
            assoc_type: self.assoc_type@,
            stp_indicator: self.stp_indicator@,
        }
    }
}

/// The kinds of record that the machine tells apart.
pub enum RecordKind {
    ScheduleBasic,
    ScheduleExtra,
    Origin,
    Intermediate,
    Terminal,
    Association,
    Other,
}

/// What one line makes the machine hand on.
pub enum Emission {
    Nothing,
    Trip(TripState),
    Association(Association),
}

/// The model of [`Emission`] in contracts.
pub enum EmissionView {
    Nothing,
    Trip(TripStateView),
    Association(AssociationView),
}

impl View for Emission {
    type V = EmissionView;

    open spec fn view(&self) -> EmissionView {
        match self {
            Emission::Nothing => EmissionView::Nothing,
            Emission::Trip(t) => EmissionView::Trip(t@),
            Emission::Association(a) => EmissionView::Association(a@),
        }
    }
}

/// The view of the machine's state: `None` is idle.
pub open spec fn state_view(state: Option<TripState>) -> Option<TripStateView> {
    match state {
        Some(t) => Some(t@),
        None => None,
    }
}

/// The kind of a line, by its first two characters; a line shorter than that
/// has none.
pub open spec fn kind_of(line: Seq<char>) -> Option<RecordKind> {
    if line.len() < 2 {
        None
    } else {
        let tag = line.subrange(0, 2);
        Some(
            if tag == "BS"@ {
                RecordKind::ScheduleBasic
            } else if tag == "BX"@ {
                RecordKind::ScheduleExtra
            } else if tag == "LO"@ {
                RecordKind::Origin
            } else if tag == "LI"@ {
                RecordKind::Intermediate
            } else if tag == "LT"@ {
                RecordKind::Terminal
            } else if tag == "AA"@ {
                RecordKind::Association
            } else {
                RecordKind::Other
            },
        )
    }
}

/// The clock text of the time column `from..to` of `line`.
pub open spec fn time_column(line: Seq<char>, from: int, to: int) -> Seq<char> {
    clock_text(numeric_chars(field_or_of(line, from, to, "00000"@)))
}

/// The location code of a location record.
pub open spec fn location_of(line: Seq<char>) -> Seq<char> {
    trimmed(field_or_of(line, 2, 9, ""@))
}

/// The trip that a schedule-basic line opens.
pub open spec fn opened_trip(line: Seq<char>) -> TripStateView {
    TripStateView {
        uid: field_or_of(line, 3, 9, ""@),
        date_start: field_or_of(line, 9, 15, ""@),
        date_end: field_or_of(line, 15, 21, ""@),
        days_run: field_or_of(line, 21, 28, "0000000"@),
        stp_ind: field_or_of(line, 79, 80, "P"@),
        atoc_code: "NR"@,
        train_identity: trimmed(field_or_of(line, 32, 36, ""@)),
        origin_name: ""@,
        dest_name: ""@,
        stops: Seq::empty(),
    }
}

/// The association that an association line states.
pub open spec fn association_of(line: Seq<char>) -> AssociationView {
    AssociationView {
        base_uid: field_or_of(line, 3, 9, ""@),
        assoc_uid: field_or_of(line, 9, 15, ""@),
        start_date: "20"@ + field_or_of(line, 15, 21, ""@),
        end_date: "20"@ + field_or_of(line, 21, 27, ""@),
        days_run: field_or_of(line, 27, 34, ""@),
        category: field_or_of(line, 34, 36, ""@),
        location: trimmed(field_or_of(line, 37, 44, ""@)),
        assoc_type: field_or_of(line, 47, 48, ""@),
        stp_indicator: field_or_of(line, 79, 80, ""@),
    }
}

/// Whether a schedule-basic line is a cancellation.
pub open spec fn is_cancellation(line: Seq<char>) -> bool {
    field_or_of(line, 79, 80, "P"@) == "C"@
}

/// Whether an intermediate-location line has no public call: both public
/// times are the zero-filled sentinel.
pub open spec fn is_passing(line: Seq<char>) -> bool {
    field_or_of(line, 25, 29, "0000"@) == "0000"@ && field_or_of(line, 29, 33, "0000"@)
        == "0000"@
}

/// `trip` with one more stop at `line`'s location, arriving and departing at
/// the given times.
pub open spec fn with_stop(
    trip: TripStateView,
    line: Seq<char>,
    arrival: Seq<char>,
    departure: Seq<char>,
) -> TripStateView {
    TripStateView {
        stops: trip.stops.push(
            StopEventView {
                stop_id: location_of(line),
                arrival_time: arrival,
                departure_time: departure,
            },
        ),
        ..trip
    }
}

/// The transition of the machine on a schedule-extra line.
pub open spec fn after_extra(trip: TripStateView, line: Seq<char>) -> TripStateView {
    let atoc = trimmed(field_or_of(line, 11, 13, "NR"@));
    if atoc.len() > 0 {
        TripStateView { atoc_code: atoc, ..trip }
    } else {
        trip
    }
}

/// The transition of the machine on an origin-location line.
pub open spec fn after_origin(
    trip: TripStateView,
    line: Seq<char>,
    stations: Map<Seq<char>, StationView>,
) -> TripStateView {
    if stations.contains_key(location_of(line)) {
        let departure = time_column(line, 10, 15);
        TripStateView {
            origin_name: stations[location_of(line)].name,
            ..with_stop(trip, line, departure, departure)
        }
    } else {
        trip
    }
}

/// The transition of the machine on an intermediate-location line.
pub open spec fn after_intermediate(
    trip: TripStateView,
    line: Seq<char>,
    stations: Map<Seq<char>, StationView>,
) -> TripStateView {
    if !is_passing(line) && stations.contains_key(location_of(line)) {
        with_stop(trip, line, time_column(line, 10, 15), time_column(line, 15, 20))
    } else {
        trip
    }
}

/// The trip that a terminal-location line closes, if its location is known.
pub open spec fn closed_trip(
    trip: TripStateView,
    line: Seq<char>,
    stations: Map<Seq<char>, StationView>,
) -> Option<TripStateView> {
    if stations.contains_key(location_of(line)) {
        let arrival = time_column(line, 10, 15);
        Some(
            TripStateView {
                dest_name: stations[location_of(line)].name,
                ..with_stop(trip, line, arrival, arrival)
            },
        )
    } else {
        None
    }
}

/// The machine's transition: the state after `line`, and what the line emits.
pub open spec fn step_of(
    state: Option<TripStateView>,
    line: Seq<char>,
    stations: Map<Seq<char>, StationView>,
) -> (Option<TripStateView>, EmissionView) {
    match kind_of(line) {
        None => (state, EmissionView::Nothing),
        Some(RecordKind::ScheduleBasic) => if is_cancellation(line) {
            (None, EmissionView::Nothing)
        } else {
            (Some(opened_trip(line)), EmissionView::Nothing)
        },
        Some(RecordKind::ScheduleExtra) => match state {
            Some(trip) => (Some(after_extra(trip, line)), EmissionView::Nothing),
            None => (None, EmissionView::Nothing),
        },
        Some(RecordKind::Origin) => match state {
            Some(trip) => (Some(after_origin(trip, line, stations)), EmissionView::Nothing),
            None => (None, EmissionView::Nothing),
        },
        Some(RecordKind::Intermediate) => match state {
            Some(trip) => (Some(after_intermediate(trip, line, stations)), EmissionView::Nothing),
            None => (None, EmissionView::Nothing),
        },
        Some(RecordKind::Terminal) => match state {
            Some(trip) => match closed_trip(trip, line, stations) {
                Some(done) => (None, EmissionView::Trip(done)),
                None => (None, EmissionView::Nothing),
            },
            None => (None, EmissionView::Nothing),
        },
        Some(RecordKind::Association) => (state, EmissionView::Association(association_of(line))),
        Some(RecordKind::Other) => (state, EmissionView::Nothing),
    }
}

/// Whether every stop of `trip` is at a known station.
pub open spec fn stops_known(trip: TripStateView, stations: Map<Seq<char>, StationView>) -> bool {
    forall|i: int|
        0 <= i < trip.stops.len() ==> stations.contains_key((#[trigger] trip.stops[i]).stop_id)
}

/// The machine only ever gathers stops at known stations: if that holds of
/// the open trip before a line, it holds of the open trip after it, and of
/// the trip that the line emits. An emitted trip ends at the station of
/// the terminal record that closed it and carries that station's name as
/// its destination.
pub proof fn lemma_step_stops_known(
    state: Option<TripStateView>,
    line: Seq<char>,
    stations: Map<Seq<char>, StationView>,
)
    requires
        state matches Some(trip) ==> stops_known(trip, stations),
    ensures
        step_of(state, line, stations).0 matches Some(trip) ==> stops_known(trip, stations),
        step_of(state, line, stations).1 matches EmissionView::Trip(trip) ==> {
            &&& stops_known(trip, stations)
            &&& trip.stops.len() >= 1
            &&& trip.stops.last().stop_id == location_of(line)
            &&& trip.dest_name == stations[location_of(line)].name
            &&& step_of(state, line, stations).0 is None
        },
{
}

/// Classifies a line by its first two characters.
pub fn record_kind(line: &str) -> (r: Option<RecordKind>)
    ensures
        r == kind_of(line@),
{
    match field(line, 0, 2) {
        None => None,
        Some(tag) => {
            if same_text(tag, "BS") {
                Some(RecordKind::ScheduleBasic)
            } else if same_text(tag, "BX") {
                Some(RecordKind::ScheduleExtra)
            } else if same_text(tag, "LO") {
                Some(RecordKind::Origin)
            } else if same_text(tag, "LI") {
                Some(RecordKind::Intermediate)
            } else if same_text(tag, "LT") {
                Some(RecordKind::Terminal)
            } else if same_text(tag, "AA") {
                Some(RecordKind::Association)
            } else {
                Some(RecordKind::Other)
            }
        },
    }
}

/// Reads the trip that a schedule-basic line opens.
pub fn open_trip(line: &str) -> (trip: TripState)
    ensures
        trip@ == opened_trip(line@),
{
    let trip = TripState {
        uid: owned_field(line, 3, 9, ""),
        date_start: owned_field(line, 9, 15, ""),
        date_end: owned_field(line, 15, 21, ""),
        days_run: owned_field(line, 21, 28, "0000000"),
        stp_ind: owned_field(line, 79, 80, "P"),
        atoc_code: "NR".to_owned(),
        train_identity: trimmed_field(line, 32, 36, ""),
        origin_name: String::new(),
        dest_name: String::new(),
        stops: Vec::new(),
    };
    proof {
        reveal_strlit("");
        assert(""@ =~= Seq::<char>::empty());
        assert(trip@.stops =~= Seq::empty());
    }
    trip
}

/// Reads the association that an association line states.
pub fn read_association(line: &str) -> (a: Association)
    ensures
        a@ == association_of(line@),
{
    Association {
        base_uid: owned_field(line, 3, 9, ""),
        assoc_uid: owned_field(line, 9, 15, ""),
        start_date: join("20", field_or(line, 15, 21, "")),
        end_date: join("20", field_or(line, 21, 27, "")),
        days_run: owned_field(line, 27, 34, ""),
        category: owned_field(line, 34, 36, ""),
        location: trimmed_field(line, 37, 44, ""),
        assoc_type: owned_field(line, 47, 48, ""),
        stp_indicator: owned_field(line, 79, 80, ""),
    }
}

fn push_stop(trip: &mut TripState, line: &str, arrival: String, departure: String)
    ensures
        final(trip)@ == with_stop(old(trip)@, line@, arrival@, departure@),
{
    let ghost before = trip.stops@;
    let stop = StopEvent {
        stop_id: trimmed_field(line, 2, 9, ""),
        arrival_time: arrival,
        departure_time: departure,
    };
    trip.stops.push(stop);
    assert(stop_views(trip.stops@) =~= stop_views(before).push(stop@));
}

/// Feeds one line to the machine.
///
/// Returns the state after the line and what the line emits: a finished trip
/// on a terminal-location line whose location is known, an association on an
/// association line, nothing otherwise.
pub fn step(state: Option<TripState>, line: &str, stations: &StationTable) -> (r: (
    Option<TripState>,
    Emission,
))
    requires
        stations.wf(),
    ensures
        (state_view(r.0), r.1@) == step_of(state_view(state), line@, stations@),
{
    match record_kind(line) {
        None => (state, Emission::Nothing),
        Some(RecordKind::ScheduleBasic) => {
            if same_text(field_or(line, 79, 80, "P"), "C") {
                (None, Emission::Nothing)
            } else {
                (Some(open_trip(line)), Emission::Nothing)
            }
        },
        Some(RecordKind::ScheduleExtra) => match state {
            Some(mut trip) => {
                let atoc = trimmed_field(line, 11, 13, "NR");
                if !atoc.as_str().is_empty() {
                    trip.atoc_code = atoc;
                }
                (Some(trip), Emission::Nothing)
            },
            None => (None, Emission::Nothing),
        },
        Some(RecordKind::Origin) => match state {
            Some(mut trip) => {
                match stations.get(trim(field_or(line, 2, 9, ""))) {
                    Some(station) => {
                        let departure = format_time(field_or(line, 10, 15, "00000"));
                        trip.origin_name = station.name.clone();
                        push_stop(&mut trip, line, departure.clone(), departure);
                    },
                    None => {},
                }
                (Some(trip), Emission::Nothing)
            },
            None => (None, Emission::Nothing),
        },
        Some(RecordKind::Intermediate) => match state {
            Some(mut trip) => {
                let passing = same_text(field_or(line, 25, 29, "0000"), "0000") && same_text(
                    field_or(line, 29, 33, "0000"),
                    "0000",
                );
                if !passing && stations.contains_key(trim(field_or(line, 2, 9, ""))) {
                    let arrival = format_time(field_or(line, 10, 15, "00000"));
                    let departure = format_time(field_or(line, 15, 20, "00000"));
                    push_stop(&mut trip, line, arrival, departure);
                }
                (Some(trip), Emission::Nothing)
            },
            None => (None, Emission::Nothing),
        },
        Some(RecordKind::Terminal) => match state {
            Some(mut trip) => {
                match stations.get(trim(field_or(line, 2, 9, ""))) {
                    Some(station) => {
                        let arrival = format_time(field_or(line, 10, 15, "00000"));
                        trip.dest_name = station.name.clone();
                        push_stop(&mut trip, line, arrival.clone(), arrival);
                        (None, Emission::Trip(trip))
                    },
                    None => (None, Emission::Nothing),
                }
            },
            None => (None, Emission::Nothing),
        },
        Some(RecordKind::Association) => (state, Emission::Association(read_association(line))),
        Some(RecordKind::Other) => (state, Emission::Nothing),
    }
}

} // verus!
