//! Calendar consolidation: every distinct combination of running days and
//! validity window gets one service identifier, numbered in the order of
//! first appearance.

use vstd::prelude::*;
use crate::index::continued;
use crate::index::FINGERPRINT_SEED;
use crate::index::Index;
use crate::index::mix;
use crate::index::mix_text;
use crate::index::mixed;
use crate::schedule::TripState;
use crate::schedule::TripStateView;
use crate::text::chars_of;
use crate::text::decimal;
use crate::text::decimal_string;
use crate::text::join;
use crate::text::lemma_decimal_injective;

verus! {

/// The days on which a service runs and the window in which it is valid.
pub struct CalendarSignature {
    pub monday: u8,
    pub tuesday: u8,
    pub wednesday: u8,
    pub thursday: u8,
    pub friday: u8,
    pub saturday: u8,
    pub sunday: u8,
    pub start_date: String,
    pub end_date: String,
}

/// The model of [`CalendarSignature`] in contracts.
pub struct CalendarSignatureView {
    pub monday: u8,
    pub tuesday: u8,
    pub wednesday: u8,
    pub thursday: u8,
    pub friday: u8,
    pub saturday: u8,
    pub sunday: u8,
    pub start_date: Seq<char>,
    pub end_date: Seq<char>,
}

impl View for CalendarSignature {
    type V = CalendarSignatureView;

    open spec fn view(&self) -> CalendarSignatureView {
        CalendarSignatureView {
            monday: self.monday,
            tuesday: self.tuesday,
            wednesday: self.wednesday,
            thursday: self.thursday,
            friday: self.friday,
            saturday: self.saturday,
            sunday: self.sunday,
            start_date: self.start_date@,
            end_date: self.end_date@,
        }
    }
}

/// A row of the calendar table.
pub struct Calendar {
    pub service_id: String,
    pub monday: u8,
    pub tuesday: u8,
    pub wednesday: u8,
    pub thursday: u8,
    pub friday: u8,
    pub saturday: u8,
    pub sunday: u8,
    pub start_date: String,
    pub end_date: String,
}

/// The model of [`Calendar`] in contracts.
pub struct CalendarView {
    pub service_id: Seq<char>,
    pub signature: CalendarSignatureView,
}

impl View for Calendar {
    type V = CalendarView;

    open spec fn view(&self) -> CalendarView {
        CalendarView {
            service_id: self.service_id@,
            signature: CalendarSignatureView {
                monday: self.monday,
                tuesday: self.tuesday,
                wednesday: self.wednesday,
                thursday: self.thursday,
                friday: self.friday,
                saturday: self.saturday,
                sunday: self.sunday,
                start_date: self.start_date@,
                end_date: self.end_date@,
            },
        }
    }
}

/// Whether the day at position `i` of a day pattern is a running day: 1 when
/// the pattern has the character `1` there, 0 otherwise.
pub open spec fn day_flag(days: Seq<char>, i: int) -> u8 {
    if 0 <= i < days.len() && days[i] == '1' {
        1
    } else {
        0
    }
}

/// The calendar signature of a trip.
pub open spec fn calendar_signature_of(trip: TripStateView) -> CalendarSignatureView {
    CalendarSignatureView {
        monday: day_flag(trip.days_run, 0),
        tuesday: day_flag(trip.days_run, 1),
        wednesday: day_flag(trip.days_run, 2),
        thursday: day_flag(trip.days_run, 3),
        friday: day_flag(trip.days_run, 4),
        saturday: day_flag(trip.days_run, 5),
        sunday: day_flag(trip.days_run, 6),
        start_date: "20"@ + trip.date_start,
        end_date: "20"@ + trip.date_end,
    }
}

/// The service identifier with number `n`.
pub open spec fn service_id_of(n: nat) -> Seq<char> {
    "SVC"@ + decimal(n)
}

/// The registry after meeting `signature`, and the number of its service:
/// a known signature keeps its number and leaves the registry alone, a new
/// one is appended and takes the next number.
pub open spec fn resolved(
    registry: Seq<CalendarSignatureView>,
    signature: CalendarSignatureView,
) -> (Seq<CalendarSignatureView>, nat) {
    if registry.contains(signature) {
        (registry, registry.index_of(signature) as nat)
    } else {
        (registry.push(signature), registry.len())
    }
}

/// The views of a run of calendar rows.
pub open spec fn calendar_views(rows: Seq<Calendar>) -> Seq<CalendarView> {
    rows.map_values(|c: Calendar| c@)
}

/// The calendar rows of a registry: one per signature, in order.
pub open spec fn calendar_rows_of(registry: Seq<CalendarSignatureView>) -> Seq<CalendarView> {
    Seq::new(
        registry.len(),
        |i: int| CalendarView { service_id: service_id_of(i as nat), signature: registry[i] },
    )
}

/// Meeting a signature a second time allocates nothing: the registry and
/// with it the calendar rows stay as they are, and the service number is the
/// one given the first time.
pub proof fn lemma_calendar_reuse(
    registry: Seq<CalendarSignatureView>,
    signature: CalendarSignatureView,
)
    requires
        registry.no_duplicates(),
    ensures
        resolved(registry, signature).0.no_duplicates(),
        resolved(resolved(registry, signature).0, signature) == resolved(registry, signature),
        calendar_rows_of(resolved(resolved(registry, signature).0, signature).0)
            == calendar_rows_of(resolved(registry, signature).0),
{
    let once = resolved(registry, signature);
    if !registry.contains(signature) {
        assert(once.0[registry.len() as int] == signature);
        assert(once.0.index_of(signature) == registry.len());
    }
}

/// Different service numbers have different identifiers.
pub proof fn lemma_service_ids_differ(m: nat, n: nat)
    requires
        service_id_of(m) == service_id_of(n),
    ensures
        m == n,
{
    let prefix = "SVC"@;
    assert(decimal(m) =~= service_id_of(m).subrange(
        prefix.len() as int,
        service_id_of(m).len() as int,
    ));
    assert(decimal(n) =~= service_id_of(n).subrange(
        prefix.len() as int,
        service_id_of(n).len() as int,
    ));
    lemma_decimal_injective(m, n);
}

/// A calendar has one service identifier and an identifier one calendar:
/// two rows of a registry's calendar table with the same identifier or the
/// same signature are the same row.
pub proof fn lemma_calendar_rows_distinct(registry: Seq<CalendarSignatureView>, i: int, j: int)
    requires
        registry.no_duplicates(),
        0 <= i < registry.len(),
        0 <= j < registry.len(),
        calendar_rows_of(registry)[i].service_id == calendar_rows_of(registry)[j].service_id
            || calendar_rows_of(registry)[i].signature == calendar_rows_of(registry)[j].signature,
    ensures
        i == j,
{
    if calendar_rows_of(registry)[i].service_id == calendar_rows_of(registry)[j].service_id {
        lemma_service_ids_differ(i as nat, j as nat);
    }
}

fn day_of(days: &Vec<char>, i: usize) -> (r: u8)
    ensures
        r == day_flag(days@, i as int),
{
    if i < days.len() && days[i] == '1' {
        1
    } else {
        0
    }
}

/// Computes the calendar signature of a trip.
pub fn calendar_signature(trip: &TripState) -> (r: CalendarSignature)
    ensures
        r@ == calendar_signature_of(trip@),
{
    let days = chars_of(trip.days_run.as_str());
    CalendarSignature {
        monday: day_of(&days, 0),
        tuesday: day_of(&days, 1),
        wednesday: day_of(&days, 2),
        thursday: day_of(&days, 3),
        friday: day_of(&days, 4),
        saturday: day_of(&days, 5),
        sunday: day_of(&days, 6),
        start_date: join("20", trip.date_start.as_str()),
        end_date: join("20", trip.date_end.as_str()),
    }
}

/// Renders the service identifier with number `n`.
pub fn service_id(n: usize) -> (r: String)
    ensures
        r@ == service_id_of(n as nat),
{
    let mut s = String::from_str("SVC");
    let digits = decimal_string(n as u64);
    s.append(digits.as_str());
    s
}

/// The fingerprint of a calendar signature: its dates and its seven days
/// mixed in, one after the other.
pub open spec fn calendar_print_of(s: CalendarSignatureView) -> u64 {
    let dates = continued(continued(FINGERPRINT_SEED, s.start_date), s.end_date);
    let early = mixed(mixed(mixed(dates, s.monday as u64), s.tuesday as u64), s.wednesday as u64);
    let late = mixed(mixed(early, s.thursday as u64), s.friday as u64);
    mixed(mixed(late, s.saturday as u64), s.sunday as u64)
}

fn calendar_print(s: &CalendarSignature) -> (r: u64)
    ensures
        r == calendar_print_of(s@),
{
    let dates = mix_text(mix_text(FINGERPRINT_SEED, s.start_date.as_str()), s.end_date.as_str());
    let early = mix(mix(mix(dates, s.monday as u64), s.tuesday as u64), s.wednesday as u64);
    let late = mix(mix(early, s.thursday as u64), s.friday as u64);
    mix(mix(late, s.saturday as u64), s.sunday as u64)
}

fn same_calendar(a: &CalendarSignature, b: &CalendarSignature) -> (r: bool)
    ensures
        r == (a@ == b@),
{
    a.monday == b.monday && a.tuesday == b.tuesday && a.wednesday == b.wednesday && a.thursday
        == b.thursday && a.friday == b.friday && a.saturday == b.saturday && a.sunday == b.sunday
        && a.start_date == b.start_date && a.end_date == b.end_date
}

/// The calendar signatures met so far, each at the position of its service
/// number.
pub struct CalendarRegistry {
    signatures: Vec<CalendarSignature>,
    index: Index,
}

impl View for CalendarRegistry {
    type V = Seq<CalendarSignatureView>;

    closed spec fn view(&self) -> Seq<CalendarSignatureView> {
        self.signatures@.map_values(|s: CalendarSignature| s@)
    }
}

impl CalendarRegistry {
    /// No signature is registered twice, and every signature is filed in
    /// the index under its fingerprint.
    pub closed spec fn wf(&self) -> bool {
        &&& self@.no_duplicates()
        &&& forall|i: int|
            0 <= i < self@.len() ==> self.index.holds(
                calendar_print_of(#[trigger] self@[i]),
                i as usize,
            )
    }

    /// A well-formed registry holds no signature twice.
    pub proof fn lemma_wf(&self)
        requires
            self.wf(),
        ensures
            self@.no_duplicates(),
    {
    }

    /// An empty registry.
    pub fn new() -> (r: Self)
        ensures
            r.wf(),
            r@ == Seq::<CalendarSignatureView>::empty(),
    {
        CalendarRegistry { signatures: Vec::new(), index: Index::new() }
    }

    /// How many services have been allocated.
    pub fn len(&self) -> (n: usize)
        ensures
            n == self@.len(),
    {
        self.signatures.len()
    }

    /// Looks `signature` up, registering it when it is new. Returns the
    /// number of its service.
    pub fn resolve(&mut self, signature: CalendarSignature) -> (n: usize)
        requires
            old(self).wf(),
        ensures
            final(self).wf(),
            (final(self)@, n as nat) == resolved(old(self)@, signature@),
    {
        let ghost before = self@;
        let print = calendar_print(&signature);
        let n = self.signatures.len();
        match self.index.candidates(print) {
            Some(found) => {
                let mut k: usize = 0;
                while k < found.len()
                    invariant
                        k <= found.len(),
                        self.wf(),
                        self@ == before,
                        forall|j: int|
                            0 <= j < k ==> !(found@[j] < before.len() && before[found@[j] as int]
                                == signature@),
                    decreases found.len() - k,
                {
                    let at = found[k];
                    if at < self.signatures.len() && same_calendar(
                        &self.signatures[at],
                        &signature,
                    ) {
                        assert(before[at as int] == signature@);
                        return at;
                    }
                    k = k + 1;
                }
                assert forall|i: int| 0 <= i < before.len() implies before[i] != signature@ by {
                    assert(i < n);
                    if before[i] == signature@ {
                        assert(self.index.holds(calendar_print_of(before[i]), i as usize));
                        let j = choose|j: int| 0 <= j < found@.len() && found@[j] == i as usize;
                        assert(found@[j] as int == i);
                    }
                }
            },
            None => {
                assert forall|i: int| 0 <= i < before.len() implies before[i] != signature@ by {
                    assert(i < n);
                    if before[i] == signature@ {
                        assert(self.index.holds(calendar_print_of(before[i]), i as usize));
                    }
                }
            },
        }
        self.index.add(print, n);
        self.signatures.push(signature);
        assert(self@ =~= before.push(signature@));
        proof {
            lemma_calendar_reuse(before, signature@);
        }
        n
    }

    /// The calendar rows: one per registered signature, in order of
    /// registration.
    pub fn rows(&self) -> (rows: Vec<Calendar>)
        ensures
            calendar_views(rows@) == calendar_rows_of(self@),
    {
        let mut rows: Vec<Calendar> = Vec::new();
        let mut i: usize = 0;
        while i < self.signatures.len()
            invariant
                i <= self.signatures.len(),
                rows@.len() == i,
                forall|j: int| 0 <= j < i ==> (#[trigger] rows@[j])@ == calendar_rows_of(self@)[j],
            decreases self.signatures.len() - i,
        {
            let s = &self.signatures[i];
            rows.push(
                Calendar {
                    service_id: service_id(i),
                    monday: s.monday,
                    tuesday: s.tuesday,
                    wednesday: s.wednesday,
                    thursday: s.thursday,
                    friday: s.friday,
                    saturday: s.saturday,
                    sunday: s.sunday,
                    start_date: s.start_date.clone(),
                    end_date: s.end_date.clone(),
                },
            );
            i = i + 1;
        }
        rows
    }
}

} // verus!
