//! Agencies and routes: who runs a trip, and on which line.
//!
//! A trip's route is named after its operator and its origin. The trips of
//! the metro operator are instead sorted into named lines by the stations
//! they touch, through a list of rules tried in a fixed order.

use vstd::prelude::*;
use crate::operator::OperatorTable;
use crate::schedule::stop_views;
use crate::schedule::StopEvent;
use crate::schedule::StopEventView;
use crate::schedule::TripState;
use crate::schedule::TripStateView;
use crate::station::StationTable;
use crate::station::StationView;
use crate::text::contains;
use crate::text::occurs_in;
use crate::text::same_text;

verus! {

/// A row of the agency table.
pub struct Agency {
    pub agency_id: String,
    pub agency_name: String,
    pub agency_url: String,
    pub agency_timezone: String,
}

/// The model of [`Agency`] in contracts.
pub struct AgencyView {
    pub agency_id: Seq<char>,
    pub agency_name: Seq<char>,
    pub agency_url: Seq<char>,
    pub agency_timezone: Seq<char>,
}

impl View for Agency {
    type V = AgencyView;

    open spec fn view(&self) -> AgencyView {
        AgencyView {
            agency_id: self.agency_id@,
            agency_name: self.agency_name@,
            agency_url: self.agency_url@,
            agency_timezone: self.agency_timezone@,
        }
    }
}

/// A row of the routes table.
pub struct Route {
    pub route_id: String,
    pub agency_id: String,
    pub route_short_name: String,
    pub route_long_name: String,
    pub route_type: u8,
    pub route_color: String,
    pub route_text_color: String,
}

/// The model of [`Route`] in contracts.
pub struct RouteView {
    pub route_id: Seq<char>,
    pub agency_id: Seq<char>,
    pub route_short_name: Seq<char>,
    pub route_long_name: Seq<char>,
    pub route_type: u8,
    pub route_color: Seq<char>,
    pub route_text_color: Seq<char>,
}

impl View for Route {
    type V = RouteView;

    open spec fn view(&self) -> RouteView {
        RouteView {
            route_id: self.route_id@,
            agency_id: self.agency_id@,
            route_short_name: self.route_short_name@,
            route_long_name: self.route_long_name@,
            route_type: self.route_type,
            route_color: self.route_color@,
            route_text_color: self.route_text_color@,
        }
    }
}

/// The views of a run of agency rows.
pub open spec fn agency_views(rows: Seq<Agency>) -> Seq<AgencyView> {
    rows.map_values(|a: Agency| a@)
}

/// The views of a run of names.
pub open spec fn name_views(names: Seq<String>) -> Seq<Seq<char>> {
    names.map_values(|n: String| n@)
}

/// The upper-case form of a text, as `str::to_uppercase` gives it.
pub uninterp spec fn uppercase_of(s: Seq<char>) -> Seq<char>;

/// `str::to_uppercase` of std. The result depends on the characters of the
/// argument alone and is named `uppercase_of`; nothing more is claimed of it.
pub assume_specification[ str::to_uppercase ](s: &str) -> (r: String)
    ensures
        r@ == uppercase_of(s@),
;

/// The route type of rail.
pub const RAIL: u8 = 2;

/// The names of the stations that a run of stops touches, in order; a stop
/// whose location is unknown contributes none.
pub open spec fn touched_names(
    stops: Seq<StopEventView>,
    stations: Map<Seq<char>, StationView>,
) -> Seq<Seq<char>>
    decreases stops.len(),
{
    if stops.len() == 0 {
        Seq::empty()
    } else {
        let before = touched_names(stops.drop_last(), stations);
        if stations.contains_key(stops.last().stop_id) {
            before.push(stations[stops.last().stop_id].name)
        } else {
            before
        }
    }
}

/// Each name in upper case.
pub open spec fn uppercased(names: Seq<Seq<char>>) -> Seq<Seq<char>> {
    names.map_values(|n: Seq<char>| uppercase_of(n))
}

/// Whether some name contains `marker`.
pub open spec fn mentions(names: Seq<Seq<char>>, marker: Seq<char>) -> bool {
    exists|i: int| 0 <= i < names.len() && occurs_in(#[trigger] names[i], marker)
}

/// One rule of the line classifier: a condition on the station names that
/// a trip touches, and the line of a trip that meets it.
pub struct LineRule {
    /// The condition holds when every marker of one alternative is
    /// mentioned.
    pub alternatives: Vec<Vec<&'static str>>,
    pub name: &'static str,
    pub route_id: &'static str,
    pub color: &'static str,
}

/// The model of [`LineRule`] in contracts.
pub struct LineRuleView {
    pub alternatives: Seq<Seq<Seq<char>>>,
    pub name: Seq<char>,
    pub route_id: Seq<char>,
    pub color: Seq<char>,
}

/// The views of a run of markers.
pub open spec fn marker_views(markers: Seq<&'static str>) -> Seq<Seq<char>> {
    markers.map_values(|m: &'static str| m@)
}

/// The views of a run of alternatives.
pub open spec fn alternative_views(alternatives: Seq<Vec<&'static str>>) -> Seq<Seq<Seq<char>>> {
    alternatives.map_values(|a: Vec<&'static str>| marker_views(a@))
}

impl View for LineRule {
    type V = LineRuleView;

    open spec fn view(&self) -> LineRuleView {
        LineRuleView {
            alternatives: alternative_views(self.alternatives@),
            name: self.name@,
            route_id: self.route_id@,
            color: self.color@,
        }
    }
}

/// The views of a run of rules.
pub open spec fn rule_views(rules: Seq<LineRule>) -> Seq<LineRuleView> {
    rules.map_values(|r: LineRule| r@)
}

/// The rules of the metro network, in the order in which they are tried.
/// Stations are shared between lines, so the order decides.
pub open spec fn line_rules_of() -> Seq<LineRuleView> {
    seq![
        LineRuleView {
            alternatives: seq![seq!["GOSPEL OAK"@, "BARKING"@]],
            name: "Suffragette Line"@,
            route_id: "LO-SUFFRAGETTE"@,
            color: "008163"@,
        },
        LineRuleView {
            alternatives: seq![seq!["ROMFORD"@, "UPMINSTER"@]],
            name: "Liberty Line"@,
            route_id: "LO-LIBERTY"@,
            color: "676767"@,
        },
        LineRuleView {
            alternatives: seq![
                seq!["LIVERPOOL STREET"@, "CHESHUNT"@],
                seq!["LIVERPOOL STREET"@, "ENFIELD TOWN"@],
                seq!["LIVERPOOL STREET"@, "CHINGFORD"@],
            ],
            name: "Weaver Line"@,
            route_id: "LO-WEAVER"@,
            color: "a90068"@,
        },
        LineRuleView {
            alternatives: seq![seq!["EUSTON"@, "WATFORD JUNCTION"@]],
            name: "Lioness Line"@,
            route_id: "LO-LIONESS"@,
            color: "f1b41c"@,
        },
        LineRuleView {
            alternatives: seq![seq!["SHOREDITCH HIGH STREET"@]],
            name: "Windrush Line"@,
            route_id: "LO-WINDRUSH"@,
            color: "dc2517"@,
        },
        LineRuleView {
            alternatives: seq![
                seq!["STRATFORD"@],
                seq!["RICHMOND"@, "WILLESDEN JUNCTION"@],
                seq!["CAMDEN ROAD"@],
                seq!["HACKNEY CENTRAL"@],
            ],
            name: "Mildmay Line"@,
            route_id: "LO-MILDMAY"@,
            color: "437ec1"@,
        },
    ]
}

/// The line of a metro trip that meets no rule, as (line name, route
/// identifier, colour).
pub open spec fn generic_line() -> (Seq<char>, Seq<char>, Seq<char>) {
    ("London Overground"@, "LO-GENERIC"@, "E66A1F"@)
}

/// Whether every marker is mentioned by some name.
pub open spec fn all_mentioned(names: Seq<Seq<char>>, markers: Seq<Seq<char>>) -> bool {
    forall|i: int| 0 <= i < markers.len() ==> mentions(names, #[trigger] markers[i])
}

/// Whether the names meet the rule's condition.
pub open spec fn rule_holds(rule: LineRuleView, names: Seq<Seq<char>>) -> bool {
    exists|a: int|
        0 <= a < rule.alternatives.len() && all_mentioned(names, #[trigger] rule.alternatives[a])
}

/// The position of the first rule from position `from` on that the names
/// meet, if there is one.
pub open spec fn first_match_from(rules: Seq<LineRuleView>, names: Seq<Seq<char>>, from: int) -> Option<
    int,
>
    decreases rules.len() - from,
{
    if from < 0 || from >= rules.len() {
        None
    } else if rule_holds(rules[from], names) {
        Some(from)
    } else {
        first_match_from(rules, names, from + 1)
    }
}

/// The line that a list of rules gives to a trip touching stations with
/// the given names: that of the first rule that the names meet, or the
/// generic line when they meet none.
pub open spec fn line_by(rules: Seq<LineRuleView>, names: Seq<Seq<char>>) -> (
    Seq<char>,
    Seq<char>,
    Seq<char>,
) {
    match first_match_from(rules, names, 0) {
        Some(i) => (rules[i].name, rules[i].route_id, rules[i].color),
        None => generic_line(),
    }
}

/// The metro line of a trip that touches stations with the given
/// upper-case names, as (line name, route identifier, colour).
pub open spec fn line_of(names: Seq<Seq<char>>) -> (Seq<char>, Seq<char>, Seq<char>) {
    line_by(line_rules_of(), names)
}

/// The rule that decides is the first that holds: the names meet it and
/// none before it. Where no rule decides, the names meet none.
pub proof fn lemma_first_match(rules: Seq<LineRuleView>, names: Seq<Seq<char>>, from: int)
    requires
        0 <= from,
    ensures
        match first_match_from(rules, names, from) {
            Some(i) => {
                &&& from <= i < rules.len()
                &&& rule_holds(rules[i], names)
                &&& forall|j: int| from <= j < i ==> !rule_holds(#[trigger] rules[j], names)
            },
            None => forall|j: int| from <= j < rules.len() ==> !rule_holds(#[trigger] rules[j], names),
        },
    decreases rules.len() - from,
{
    if from < rules.len() && !rule_holds(rules[from], names) {
        lemma_first_match(rules, names, from + 1);
    }
}

/// The route of a finished trip. A trip of the metro operator is on the
/// line that `line_of` gives; any other is on the route named after its
/// operator and origin.
pub open spec fn route_of(trip: TripStateView, stations: Map<Seq<char>, StationView>) -> RouteView {
    if trip.atoc_code == "LO"@ {
        let line = line_of(uppercased(touched_names(trip.stops, stations)));
        RouteView {
            route_id: line.1,
            agency_id: trip.atoc_code,
            route_short_name: "LO"@,
            route_long_name: line.0,
            route_type: RAIL,
            route_color: line.2,
            route_text_color: "FFFFFF"@,
        }
    } else {
        RouteView {
            route_id: trip.atoc_code + "_"@ + trip.origin_name,
            agency_id: trip.atoc_code,
            route_short_name: trip.atoc_code,
            route_long_name: trip.origin_name + " to "@ + trip.dest_name,
            route_type: RAIL,
            route_color: ""@,
            route_text_color: "000000"@,
        }
    }
}

/// The agency of an operator: named from the operator table, or after the
/// code when the table does not know it.
pub open spec fn agency_of(code: Seq<char>, operators: Map<Seq<char>, Seq<char>>) -> AgencyView {
    AgencyView {
        agency_id: code,
        agency_name: if operators.contains_key(code) {
            operators[code]
        } else {
            "National Rail ("@ + code + ")"@
        },
        agency_url: "http://www.nationalrail.co.uk"@,
        agency_timezone: "Europe/London"@,
    }
}

fn any_contains(names: &Vec<String>, marker: &str) -> (r: bool)
    ensures
        r == mentions(name_views(names@), marker@),
{
    let mut i: usize = 0;
    while i < names.len()
        invariant
            i <= names.len(),
            forall|j: int| 0 <= j < i ==> !occurs_in(#[trigger] name_views(names@)[j], marker@),
        decreases names.len() - i,
    {
        if contains(names[i].as_str(), marker) {
            assert(occurs_in(name_views(names@)[i as int], marker@));
            return true;
        }
        i = i + 1;
    }
    false
}

fn all_contained(names: &Vec<String>, markers: &Vec<&'static str>) -> (r: bool)
    ensures
        r == all_mentioned(name_views(names@), marker_views(markers@)),
{
    let mut i: usize = 0;
    while i < markers.len()
        invariant
            i <= markers.len(),
            forall|j: int|
                0 <= j < i ==> mentions(name_views(names@), #[trigger] marker_views(markers@)[j]),
        decreases markers.len() - i,
    {
        if !any_contains(names, markers[i]) {
            assert(!mentions(name_views(names@), marker_views(markers@)[i as int]));
            return false;
        }
        i = i + 1;
    }
    true
}

fn rule_applies(names: &Vec<String>, rule: &LineRule) -> (r: bool)
    ensures
        r == rule_holds(rule@, name_views(names@)),
{
    let mut a: usize = 0;
    while a < rule.alternatives.len()
        invariant
            a <= rule.alternatives.len(),
            forall|j: int|
                0 <= j < a ==> !all_mentioned(
                    name_views(names@),
                    #[trigger] rule@.alternatives[j],
                ),
        decreases rule.alternatives.len() - a,
    {
        if all_contained(names, &rule.alternatives[a]) {
            assert(all_mentioned(name_views(names@), rule@.alternatives[a as int]));
            return true;
        }
        a = a + 1;
    }
    false
}

/// The rules of the metro network, in the order in which they are tried.
pub fn line_rules() -> (rules: Vec<LineRule>)
    ensures
        rule_views(rules@) == line_rules_of(),
{
    let rules = vec![
        LineRule {
            alternatives: vec![vec!["GOSPEL OAK", "BARKING"]],
            name: "Suffragette Line",
            route_id: "LO-SUFFRAGETTE",
            color: "008163",
        },
        LineRule {
            alternatives: vec![vec!["ROMFORD", "UPMINSTER"]],
            name: "Liberty Line",
            route_id: "LO-LIBERTY",
            color: "676767",
        },
        LineRule {
            alternatives: vec![
                vec!["LIVERPOOL STREET", "CHESHUNT"],
                vec!["LIVERPOOL STREET", "ENFIELD TOWN"],
                vec!["LIVERPOOL STREET", "CHINGFORD"],
            ],
            name: "Weaver Line",
            route_id: "LO-WEAVER",
            color: "a90068",
        },
        LineRule {
            alternatives: vec![vec!["EUSTON", "WATFORD JUNCTION"]],
            name: "Lioness Line",
            route_id: "LO-LIONESS",
            color: "f1b41c",
        },
        LineRule {
            alternatives: vec![vec!["SHOREDITCH HIGH STREET"]],
            name: "Windrush Line",
            route_id: "LO-WINDRUSH",
            color: "dc2517",
        },
        LineRule {
            alternatives: vec![
                vec!["STRATFORD"],
                vec!["RICHMOND", "WILLESDEN JUNCTION"],
                vec!["CAMDEN ROAD"],
                vec!["HACKNEY CENTRAL"],
            ],
            name: "Mildmay Line",
            route_id: "LO-MILDMAY",
            color: "437ec1",
        },
    ];
    proof {
        let got = rule_views(rules@);
        let want = line_rules_of();
        assert forall|i: int| 0 <= i < got.len() implies got[i] == want[i] by {
            let g = got[i].alternatives;
            let w = want[i].alternatives;
            assert forall|a: int| 0 <= a < g.len() implies g[a] == w[a] by {
            }
            assert(g =~= w);
        }
    }
    rules
}

/// Sorts a trip into a line by a list of rules and the upper-case names of
/// the stations it touches: the first rule that the names meet decides.
/// Returns (line name, route identifier, colour).
pub fn classify_by(rules: &Vec<LineRule>, names: &Vec<String>) -> (r: (String, String, String))
    ensures
        (r.0@, r.1@, r.2@) == line_by(rule_views(rules@), name_views(names@)),
{
    let mut i: usize = 0;
    while i < rules.len()
        invariant
            i <= rules.len(),
            first_match_from(rule_views(rules@), name_views(names@), 0) == first_match_from(
                rule_views(rules@),
                name_views(names@),
                i as int,
            ),
        decreases rules.len() - i,
    {
        if rule_applies(names, &rules[i]) {
            return (
                String::from_str(rules[i].name),
                String::from_str(rules[i].route_id),
                String::from_str(rules[i].color),
            );
        }
        i = i + 1;
    }
    (
        String::from_str("London Overground"),
        String::from_str("LO-GENERIC"),
        String::from_str("E66A1F"),
    )
}

/// Sorts a trip into its metro line by the upper-case names of the stations
/// it touches. Returns (line name, route identifier, colour).
pub fn classify_line(names: &Vec<String>) -> (r: (String, String, String))
    ensures
        (r.0@, r.1@, r.2@) == line_of(name_views(names@)),
{
    classify_by(&line_rules(), names)
}

/// The metro line of a run of stops: the names of the stations they touch
/// are put in upper case and sorted by `classify_line`.
pub fn get_lo_line_details(stops: &Vec<StopEvent>, stations: &StationTable) -> (r: (
    String,
    String,
    String,
))
    requires
        stations.wf(),
    ensures
        (r.0@, r.1@, r.2@) == line_of(
            uppercased(touched_names(stop_views(stops@), stations@)),
        ),
{
    let mut names: Vec<String> = Vec::new();
    let mut i: usize = 0;
    let ghost all = stop_views(stops@);
    while i < stops.len()
        invariant
            i <= stops.len(),
            stations.wf(),
            all == stop_views(stops@),
            name_views(names@) == uppercased(touched_names(all.take(i as int), stations@)),
        decreases stops.len() - i,
    {
        let ghost head = all.take(i as int);
        let ghost next = all.take(i as int + 1);
        assert(next.drop_last() =~= head);
        match stations.get(stops[i].stop_id.as_str()) {
            Some(station) => {
                let upper = station.name.as_str().to_uppercase();
                names.push(upper);
                assert(uppercased(touched_names(next, stations@)) =~= uppercased(
                    touched_names(head, stations@),
                ).push(uppercase_of(station.name@)));
            },
            None => {},
        }
        i = i + 1;
    }
    assert(all.take(i as int) =~= all);
    classify_line(&names)
}

/// Derives the route of a finished trip.
pub fn derive_route(trip: &TripState, stations: &StationTable) -> (r: Route)
    requires
        stations.wf(),
    ensures
        r@ == route_of(trip@, stations@),
{
    if same_text(trip.atoc_code.as_str(), "LO") {
        let (name, id, color) = get_lo_line_details(&trip.stops, stations);
        Route {
            route_id: id,
            agency_id: trip.atoc_code.clone(),
            route_short_name: String::from_str("LO"),
            route_long_name: name,
            route_type: RAIL,
            route_color: color,
            route_text_color: String::from_str("FFFFFF"),
        }
    } else {
        let mut route_id = trip.atoc_code.clone();
        route_id.append("_");
        route_id.append(trip.origin_name.as_str());
        let mut long_name = trip.origin_name.clone();
        long_name.append(" to ");
        long_name.append(trip.dest_name.as_str());
        Route {
            route_id,
            agency_id: trip.atoc_code.clone(),
            route_short_name: trip.atoc_code.clone(),
            route_long_name: long_name,
            route_type: RAIL,
            route_color: String::from_str(""),
            route_text_color: String::from_str("000000"),
        }
    }
}

/// Derives the agency of an operator.
pub fn derive_agency(code: &str, operators: &OperatorTable) -> (r: Agency)
    requires
        operators.wf(),
    ensures
        r@ == agency_of(code@, operators@),
{
    let name = match operators.get(code) {
        Some(known) => known.clone(),
        None => {
            let mut s = String::from_str("National Rail (");
            s.append(code);
            s.append(")");
            s
        },
    };
    Agency {
        agency_id: String::from_str(code),
        agency_name: name,
        agency_url: String::from_str("http://www.nationalrail.co.uk"),
        agency_timezone: String::from_str("Europe/London"),
    }
}

} // verus!
