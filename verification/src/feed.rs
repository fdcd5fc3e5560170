//! The feed under construction: what the finished trips and the association
//! records of a timetable add up to.

use vstd::prelude::*;
use crate::calendar::Calendar;
use crate::calendar::calendar_rows_of;
use crate::calendar::calendar_signature;
use crate::calendar::calendar_signature_of;
use crate::calendar::calendar_views;
use crate::calendar::CalendarRegistry;
use crate::calendar::CalendarSignatureView;
use crate::calendar::lemma_calendar_reuse;
use crate::calendar::resolved;
use crate::calendar::service_id;
use crate::calendar::service_id_of;
use crate::operator::OperatorTable;
use crate::route::Agency;
use crate::route::agency_of;
use crate::route::agency_views;
use crate::route::AgencyView;
use crate::route::derive_agency;
use crate::route::derive_route;
use crate::route::Route;
use crate::route::route_of;
use crate::route::RouteView;
use crate::schedule::Association;
use crate::schedule::AssociationView;
use crate::schedule::Emission;
use crate::schedule::EmissionView;
use crate::schedule::lemma_step_stops_known;
use crate::schedule::state_view;
use crate::schedule::step;
use crate::schedule::step_of;
use crate::schedule::stops_known;
use crate::schedule::TripState;
use crate::schedule::TripStateView;
use crate::station::line_views;
use crate::station::StationTable;
use crate::station::StationView;
use crate::table::StringMap;
use crate::trips::consistent;
use crate::trips::lemma_duplicate_suppressed;
use crate::trips::lemma_registered_consistent;
use crate::trips::registered;
use crate::trips::signature_known;
use crate::trips::stop_time_rows_of;
use crate::trips::stop_time_views;
use crate::trips::StopTime;
use crate::trips::Trip;
use crate::trips::trip_id_of;
use crate::trips::trip_rows_of;
use crate::trips::trip_views;
use crate::trips::TripRecordView;
use crate::trips::TripRegistry;
use crate::trips::TripServiceSignature;
use crate::trips::TripServiceSignatureView;
use crate::trips::TripSignature;
use crate::trips::TripSignatureView;

verus! {

/// Everything that a conversion has gathered: agencies, routes, calendars,
/// trips with their stops, and associations.
pub struct Feed {
    agencies: Vec<Agency>,
    routes: StringMap<Route>,
    calendars: CalendarRegistry,
    trips: TripRegistry,
    associations: Vec<Association>,
}

/// The model of [`Feed`] in contracts.
pub struct FeedView {
    /// The agencies, in order of first appearance.
    pub agencies: Seq<AgencyView>,
    /// The routes by identifier.
    pub routes: Map<Seq<char>, RouteView>,
    /// The route identifiers, in order of first appearance.
    pub route_ids: Seq<Seq<char>>,
    /// The calendar signatures, each at the position of its service number.
    pub calendars: Seq<CalendarSignatureView>,
    /// The registered trips, in order of registration.
    pub trips: Seq<TripRecordView>,
    /// The associations, in the order of their lines.
    pub associations: Seq<AssociationView>,
}

/// The views of a run of associations.
pub open spec fn association_views(rows: Seq<Association>) -> Seq<AssociationView> {
    rows.map_values(|a: Association| a@)
}

/// The key under which a finished trip is consolidated, given its route
/// and the number of its service.
pub open spec fn signature_of(
    trip: TripStateView,
    route_id: Seq<char>,
    service: nat,
) -> TripServiceSignatureView {
    TripServiceSignatureView {
        trip_sig: TripSignatureView {
            route_id,
            stop_pattern: trip.stops,
            headsign: trip.dest_name,
            train_identity: trip.train_identity,
        },
        service_id: service_id_of(service),
    }
}

/// The key under which `feed` consolidates a finished trip: the trip's
/// pattern on its route, and the service of its calendar.
pub open spec fn key_of(
    feed: FeedView,
    trip: TripStateView,
    stations: Map<Seq<char>, StationView>,
) -> TripServiceSignatureView {
    signature_of(
        trip,
        route_of(trip, stations).route_id,
        resolved(feed.calendars, calendar_signature_of(trip)).1,
    )
}

/// The feed after a finished trip has been committed to it.
///
/// The trip's agency is added unless an equal one is there. Its route is
/// added unless one with that identifier is there: the first stays. Its
/// calendar is resolved to a service, and the trip is registered under its
/// pattern and service unless that key is known.
pub open spec fn committed(
    feed: FeedView,
    trip: TripStateView,
    stations: Map<Seq<char>, StationView>,
    operators: Map<Seq<char>, Seq<char>>,
) -> FeedView {
    let agency = agency_of(trip.atoc_code, operators);
    let route = route_of(trip, stations);
    let calendar = resolved(feed.calendars, calendar_signature_of(trip));
    let known_route = feed.routes.contains_key(route.route_id);
    FeedView {
        agencies: if feed.agencies.contains(agency) {
            feed.agencies
        } else {
            feed.agencies.push(agency)
        },
        routes: if known_route {
            feed.routes
        } else {
            feed.routes.insert(route.route_id, route)
        },
        route_ids: if known_route {
            feed.route_ids
        } else {
            feed.route_ids.push(route.route_id)
        },
        calendars: calendar.0,
        trips: registered(
            feed.trips,
            key_of(feed, trip, stations),
            trip.uid,
            trip.date_start,
            trip.stp_ind,
        ),
        associations: feed.associations,
    }
}

/// The feed after taking in what one line emitted.
pub open spec fn absorbed(
    feed: FeedView,
    emission: EmissionView,
    stations: Map<Seq<char>, StationView>,
    operators: Map<Seq<char>, Seq<char>>,
) -> FeedView {
    match emission {
        EmissionView::Nothing => feed,
        EmissionView::Trip(trip) => committed(feed, trip, stations, operators),
        EmissionView::Association(a) => FeedView {
            associations: feed.associations.push(a),
            ..feed
        },
    }
}

/// The feed after the machine, starting in `state`, has run over `lines`
/// in order and the feed has taken in what each line emitted. A trip still
/// open after the last line is dropped.
pub open spec fn converted(
    feed: FeedView,
    state: Option<TripStateView>,
    lines: Seq<Seq<char>>,
    stations: Map<Seq<char>, StationView>,
    operators: Map<Seq<char>, Seq<char>>,
) -> FeedView
    decreases lines.len(),
{
    if lines.len() == 0 {
        feed
    } else {
        let (next, emission) = step_of(state, lines[0], stations);
        converted(
            absorbed(feed, emission, stations, operators),
            next,
            lines.drop_first(),
            stations,
            operators,
        )
    }
}

/// What holds of every feed that grew from the empty one by commits.
///
/// Nothing is listed twice: agencies, route identifiers, calendars and
/// trip keys are each distinct, and trip identifiers follow the naming
/// rule. The tables refer to each other soundly: a route is stored under
/// its own identifier and its agency is listed, and every trip's route and
/// service exist.
pub open spec fn coherent(feed: FeedView) -> bool {
    &&& feed.agencies.no_duplicates()
    &&& feed.route_ids.no_duplicates()
    &&& forall|k: Seq<char>| feed.routes.contains_key(k) <==> feed.route_ids.contains(k)
    &&& forall|k: Seq<char>|
        feed.routes.contains_key(k) ==> (#[trigger] feed.routes[k]).route_id == k && lists_agency(
            feed.agencies,
            feed.routes[k].agency_id,
        )
    &&& feed.calendars.no_duplicates()
    &&& consistent(feed.trips)
    &&& forall|i: int|
        0 <= i < feed.trips.len() ==> feed.routes.contains_key(
            (#[trigger] feed.trips[i]).signature.trip_sig.route_id,
        ) && names_service(feed.calendars, feed.trips[i].signature.service_id)
}

/// Whether some agency of `agencies` has the identifier `id`.
pub open spec fn lists_agency(agencies: Seq<AgencyView>, id: Seq<char>) -> bool {
    exists|i: int| 0 <= i < agencies.len() && (#[trigger] agencies[i]).agency_id == id
}

/// Whether `id` is the identifier of a registered calendar's service.
pub open spec fn names_service(calendars: Seq<CalendarSignatureView>, id: Seq<char>) -> bool {
    exists|n: int| 0 <= n < calendars.len() && id == #[trigger] service_id_of(n as nat)
}

/// Committing a trip keeps a feed coherent.
pub proof fn lemma_committed_coherent(
    feed: FeedView,
    trip: TripStateView,
    stations: Map<Seq<char>, StationView>,
    operators: Map<Seq<char>, Seq<char>>,
)
    requires
        coherent(feed),
    ensures
        coherent(committed(feed, trip, stations, operators)),
{
    let after = committed(feed, trip, stations, operators);
    let agency = agency_of(trip.atoc_code, operators);
    let route = route_of(trip, stations);
    let calendar = resolved(feed.calendars, calendar_signature_of(trip));
    let signature = signature_of(trip, route.route_id, calendar.1);
    lemma_calendar_reuse(feed.calendars, calendar_signature_of(trip));
    lemma_registered_consistent(feed.trips, signature, trip.uid, trip.date_start, trip.stp_ind);
    assert(lists_agency(after.agencies, trip.atoc_code)) by {
        if feed.agencies.contains(agency) {
            let i = choose|i: int| 0 <= i < feed.agencies.len() && feed.agencies[i] == agency;
            assert(after.agencies[i].agency_id == trip.atoc_code);
        } else {
            assert(after.agencies[feed.agencies.len() as int].agency_id == trip.atoc_code);
        }
    }
    assert forall|k: Seq<char>| after.routes.contains_key(k) implies (
    #[trigger] after.routes[k]).route_id == k && lists_agency(
        after.agencies,
        after.routes[k].agency_id,
    ) by {
        if feed.routes.contains_key(k) {
            let i = choose|i: int|
                0 <= i < feed.agencies.len() && (#[trigger] feed.agencies[i]).agency_id
                    == feed.routes[k].agency_id;
            assert(after.agencies[i] == feed.agencies[i]);
        }
    }
    assert forall|k: Seq<char>| after.routes.contains_key(k) <==> after.route_ids.contains(k) by {
        if !feed.routes.contains_key(route.route_id) {
            if k == route.route_id {
                assert(after.route_ids[feed.route_ids.len() as int] == k);
            } else if feed.route_ids.contains(k) {
                let i = choose|i: int| 0 <= i < feed.route_ids.len() && feed.route_ids[i] == k;
                assert(after.route_ids[i] == k);
            }
        }
    }
    assert(after.route_ids.no_duplicates()) by {
        if !feed.routes.contains_key(route.route_id) {
            assert forall|i: int, j: int|
                0 <= i < after.route_ids.len() && 0 <= j < after.route_ids.len() && i
                    != j implies after.route_ids[i] != after.route_ids[j] by {
                if i < feed.route_ids.len() {
                    assert(feed.route_ids.contains(feed.route_ids[i]));
                }
                if j < feed.route_ids.len() {
                    assert(feed.route_ids.contains(feed.route_ids[j]));
                }
            }
        }
    }
}

/// Taking in an emission keeps a feed coherent.
pub proof fn lemma_absorbed_coherent(
    feed: FeedView,
    emission: EmissionView,
    stations: Map<Seq<char>, StationView>,
    operators: Map<Seq<char>, Seq<char>>,
)
    requires
        coherent(feed),
    ensures
        coherent(absorbed(feed, emission, stations, operators)),
{
    if let EmissionView::Trip(trip) = emission {
        lemma_committed_coherent(feed, trip, stations, operators);
    }
}

/// Converting a schedule file keeps a feed coherent, whatever its lines.
pub proof fn lemma_converted_coherent(
    feed: FeedView,
    state: Option<TripStateView>,
    lines: Seq<Seq<char>>,
    stations: Map<Seq<char>, StationView>,
    operators: Map<Seq<char>, Seq<char>>,
)
    requires
        coherent(feed),
    ensures
        coherent(converted(feed, state, lines, stations, operators)),
    decreases lines.len(),
{
    if lines.len() > 0 {
        let (next, emission) = step_of(state, lines[0], stations);
        lemma_absorbed_coherent(feed, emission, stations, operators);
        lemma_converted_coherent(
            absorbed(feed, emission, stations, operators),
            next,
            lines.drop_first(),
            stations,
            operators,
        );
    }
}

/// Whether every stop of every registered trip is at a known station.
pub open spec fn trips_at_stations(feed: FeedView, stations: Map<Seq<char>, StationView>) -> bool {
    forall|i: int, k: int|
        0 <= i < feed.trips.len() && 0 <= k < feed.trips[i].signature.trip_sig.stop_pattern.len()
            ==> stations.contains_key(
            (#[trigger] feed.trips[i].signature.trip_sig.stop_pattern[k]).stop_id,
        )
}

/// Stop times only ever refer to known stations: a conversion that starts
/// with such a feed, and with the machine idle or holding a trip with known
/// stops, ends with such a feed.
pub proof fn lemma_converted_at_stations(
    feed: FeedView,
    state: Option<TripStateView>,
    lines: Seq<Seq<char>>,
    stations: Map<Seq<char>, StationView>,
    operators: Map<Seq<char>, Seq<char>>,
)
    requires
        trips_at_stations(feed, stations),
        state matches Some(trip) ==> stops_known(trip, stations),
    ensures
        trips_at_stations(converted(feed, state, lines, stations, operators), stations),
    decreases lines.len(),
{
    if lines.len() > 0 {
        let (next, emission) = step_of(state, lines[0], stations);
        let taken = absorbed(feed, emission, stations, operators);
        lemma_step_stops_known(state, lines[0], stations);
        lemma_converted_at_stations(taken, next, lines.drop_first(), stations, operators);
    }
}

/// Committing the same trip a second time changes nothing: no agency, no
/// route, no calendar and no trip is added.
pub proof fn lemma_commit_twice(
    feed: FeedView,
    trip: TripStateView,
    stations: Map<Seq<char>, StationView>,
    operators: Map<Seq<char>, Seq<char>>,
)
    requires
        coherent(feed),
    ensures
        committed(committed(feed, trip, stations, operators), trip, stations, operators)
            == committed(feed, trip, stations, operators),
{
    let once = committed(feed, trip, stations, operators);
    let agency = agency_of(trip.atoc_code, operators);
    let route = route_of(trip, stations);
    let calendar = resolved(feed.calendars, calendar_signature_of(trip));
    let signature = signature_of(trip, route.route_id, calendar.1);
    lemma_calendar_reuse(feed.calendars, calendar_signature_of(trip));
    lemma_duplicate_suppressed(
        feed.trips,
        signature,
        trip.uid,
        trip.date_start,
        trip.stp_ind,
        trip.uid,
        trip.date_start,
        trip.stp_ind,
    );
    assert(once.agencies.contains(agency)) by {
        if !feed.agencies.contains(agency) {
            assert(once.agencies[feed.agencies.len() as int] == agency);
        }
    }
}

fn same_agency(a: &Agency, b: &Agency) -> (r: bool)
    ensures
        r == (a@ == b@),
{
    a.agency_id == b.agency_id && a.agency_name == b.agency_name && a.agency_url == b.agency_url
        && a.agency_timezone == b.agency_timezone
}

impl View for Feed {
    type V = FeedView;

    closed spec fn view(&self) -> FeedView {
        FeedView {
            agencies: agency_views(self.agencies@),
            routes: self.routes@,
            route_ids: self.routes.keys(),
            calendars: self.calendars@,
            trips: self.trips@,
            associations: association_views(self.associations@),
        }
    }
}

impl Feed {
    /// The feed is coherent, and its parts are well formed.
    pub closed spec fn wf(&self) -> bool {
        &&& self.routes.wf()
        &&& self.calendars.wf()
        &&& self.trips.wf()
        &&& coherent(self@)
    }

    /// A well-formed feed is coherent.
    pub proof fn lemma_wf(&self)
        requires
            self.wf(),
        ensures
            coherent(self@),
    {
    }

    /// An empty feed.
    pub fn new() -> (feed: Self)
        ensures
            feed.wf(),
            feed@ == (FeedView {
                agencies: Seq::empty(),
                routes: Map::empty(),
                route_ids: Seq::empty(),
                calendars: Seq::empty(),
                trips: Seq::empty(),
                associations: Seq::empty(),
            }),
    {
        let feed = Feed {
            agencies: Vec::new(),
            routes: StringMap::new(),
            calendars: CalendarRegistry::new(),
            trips: TripRegistry::new(),
            associations: Vec::new(),
        };
        assert(agency_views(feed.agencies@) =~= Seq::empty());
        assert(association_views(feed.associations@) =~= Seq::empty());
        proof {
            feed.routes.lemma_entries();
        }
        feed
    }

    fn has_agency(&self, agency: &Agency) -> (r: bool)
        ensures
            r == self@.agencies.contains(agency@),
    {
        let mut i: usize = 0;
        while i < self.agencies.len()
            invariant
                i <= self.agencies.len(),
                forall|j: int| 0 <= j < i ==> agency_views(self.agencies@)[j] != agency@,
            decreases self.agencies.len() - i,
        {
            if same_agency(&self.agencies[i], agency) {
                assert(agency_views(self.agencies@)[i as int] == agency@);
                return true;
            }
            i = i + 1;
        }
        false
    }

    /// Commits a finished trip: adds its agency and route where they are
    /// new, resolves its calendar, and registers the trip unless one with
    /// the same pattern and service is there.
    ///
    /// Returns the identifier given to the trip, `None` when it was
    /// suppressed as a duplicate.
    pub fn commit(&mut self, trip: TripState, stations: &StationTable, operators: &OperatorTable) -> (r:
        Option<String>)
        requires
            old(self).wf(),
            stations.wf(),
            operators.wf(),
        ensures
            final(self).wf(),
            final(self)@ == committed(old(self)@, trip@, stations@, operators@),
            match r {
                Some(id) => !signature_known(
                    old(self)@.trips,
                    key_of(old(self)@, trip@, stations@),
                ) && id@ == trip_id_of(
                    old(self)@.trips,
                    trip@.uid,
                    trip@.date_start,
                    trip@.stp_ind,
                ),
                None => signature_known(old(self)@.trips, key_of(old(self)@, trip@, stations@)),
            },
    {
        let ghost before = self@;
        proof {
            lemma_committed_coherent(before, trip@, stations@, operators@);
        }
        let agency = derive_agency(trip.atoc_code.as_str(), operators);
        if !self.has_agency(&agency) {
            let ghost seen = agency_views(self.agencies@);
            self.agencies.push(agency);
            assert(agency_views(self.agencies@) =~= seen.push(agency@));
        }
        let route = derive_route(&trip, stations);
        let route_id = route.route_id.clone();
        if !self.routes.contains_key(route_id.as_str()) {
            self.routes.insert(route_id.clone(), route);
        }
        let number = self.calendars.resolve(calendar_signature(&trip));
        let signature = TripServiceSignature {
            trip_sig: TripSignature {
                route_id,
                stop_pattern: trip.stops,
                headsign: trip.dest_name,
                train_identity: trip.train_identity,
            },
            service_id: service_id(number),
        };
        self.trips.register(signature, trip.uid, trip.date_start, trip.stp_ind)
    }

    /// Takes in what one line emitted.
    pub fn absorb(&mut self, emission: Emission, stations: &StationTable, operators: &OperatorTable)
        requires
            old(self).wf(),
            stations.wf(),
            operators.wf(),
        ensures
            final(self).wf(),
            final(self)@ == absorbed(old(self)@, emission@, stations@, operators@),
    {
        proof {
            lemma_absorbed_coherent(self@, emission@, stations@, operators@);
        }
        match emission {
            Emission::Nothing => {},
            Emission::Trip(trip) => {
                let _ = self.commit(trip, stations, operators);
            },
            Emission::Association(a) => {
                let ghost seen = association_views(self.associations@);
                self.associations.push(a);
                assert(association_views(self.associations@) =~= seen.push(a@));
            },
        }
    }

    /// The agency rows, in order of first appearance.
    pub fn agencies(&self) -> (rows: &Vec<Agency>)
        ensures
            agency_views(rows@) == self@.agencies,
    {
        &self.agencies
    }

    /// The association rows, in the order of their lines.
    pub fn associations(&self) -> (rows: &Vec<Association>)
        ensures
            association_views(rows@) == self@.associations,
    {
        &self.associations
    }

    /// The routes, by identifier and in order of first appearance.
    pub fn routes(&self) -> (routes: &StringMap<Route>)
        ensures
            self.wf() ==> routes.wf(),
            routes@ == self@.routes,
            routes.keys() == self@.route_ids,
    {
        &self.routes
    }

    /// The calendar rows: one per service, in order of service number.
    pub fn calendar_rows(&self) -> (rows: Vec<Calendar>)
        ensures
            calendar_views(rows@) == calendar_rows_of(self@.calendars),
    {
        self.calendars.rows()
    }

    /// The trip rows, in order of registration.
    pub fn trip_rows(&self) -> (rows: Vec<Trip>)
        ensures
            trip_views(rows@) == trip_rows_of(self@.trips),
    {
        self.trips.trip_rows()
    }

    /// The stop-time rows: trip by trip in order of registration, each
    /// trip's stops in order.
    pub fn stop_time_rows(&self) -> (rows: Vec<StopTime>)
        ensures
            stop_time_views(rows@) == stop_time_rows_of(self@.trips),
    {
        self.trips.stop_time_rows()
    }
}

/// Converts the lines of a schedule file: runs the record state machine
/// over them from the idle state, in order, and commits to `feed` every
/// trip and association that it emits.
pub fn parse_mca(
    lines: &Vec<String>,
    stations: &StationTable,
    operators: &OperatorTable,
    feed: &mut Feed,
)
    requires
        old(feed).wf(),
        stations.wf(),
        operators.wf(),
    ensures
        final(feed).wf(),
        final(feed)@ == converted(old(feed)@, None, line_views(lines@), stations@, operators@),
{
    let ghost all = line_views(lines@);
    let ghost start = feed@;
    let mut state: Option<TripState> = None;
    let mut i: usize = 0;
    assert(all.skip(0) =~= all);
    while i < lines.len()
        invariant
            i <= lines.len(),
            feed.wf(),
            stations.wf(),
            operators.wf(),
            all == line_views(lines@),
            converted(start, None, all, stations@, operators@) == converted(
                feed@,
                state_view(state),
                all.skip(i as int),
                stations@,
                operators@,
            ),
        decreases lines.len() - i,
    {
        let ghost rest = all.skip(i as int);
        assert(rest.drop_first() =~= all.skip(i as int + 1));
        let (next, emission) = step(state, lines[i].as_str(), stations);
        feed.absorb(emission, stations, operators);
        state = next;
        i = i + 1;
    }
}

} // verus!
