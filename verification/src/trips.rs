//! Trip consolidation: a trip whose pattern and service were seen before is
//! suppressed; a new one is registered and given its identifier.

use vstd::prelude::*;
use crate::index::continued;
use crate::index::fingerprint;
use crate::index::fingerprint_of;
use crate::index::FINGERPRINT_SEED;
use crate::index::Index;
use crate::index::mix_text;
use crate::schedule::stop_views;
use crate::schedule::StopEvent;
use crate::schedule::StopEventView;

verus! {

/// What makes two trips the same pattern: route, stops with their times,
/// headsign and short train identifier.
pub struct TripSignature {
    pub route_id: String,
    pub stop_pattern: Vec<StopEvent>,
    pub headsign: String,
    pub train_identity: String,
}

/// The model of [`TripSignature`] in contracts.
pub struct TripSignatureView {
    pub route_id: Seq<char>,
    pub stop_pattern: Seq<StopEventView>,
    pub headsign: Seq<char>,
    pub train_identity: Seq<char>,
}

impl View for TripSignature {
    type V = TripSignatureView;

    open spec fn view(&self) -> TripSignatureView {
        TripSignatureView {
            route_id: self.route_id@,
            stop_pattern: stop_views(self.stop_pattern@),
            headsign: self.headsign@,
            train_identity: self.train_identity@,
        }
    }
}

/// A trip pattern together with the service it runs on: the key by which
/// trips are consolidated.
pub struct TripServiceSignature {
    pub trip_sig: TripSignature,
    pub service_id: String,
}

/// The model of [`TripServiceSignature`] in contracts.
pub struct TripServiceSignatureView {
    pub trip_sig: TripSignatureView,
    pub service_id: Seq<char>,
}

impl View for TripServiceSignature {
    type V = TripServiceSignatureView;

    open spec fn view(&self) -> TripServiceSignatureView {
        TripServiceSignatureView { trip_sig: self.trip_sig@, service_id: self.service_id@ }
    }
}

/// A registered trip: its key, the schedule it came from, and the
/// identifier it was given.
pub struct TripRecord {
    pub signature: TripServiceSignature,
    pub uid: String,
    pub date_start: String,
    pub stp_ind: String,
    pub trip_id: String,
}

/// The model of [`TripRecord`] in contracts.
pub struct TripRecordView {
    pub signature: TripServiceSignatureView,
    pub uid: Seq<char>,
    pub date_start: Seq<char>,
    pub stp_ind: Seq<char>,
    pub trip_id: Seq<char>,
}

impl View for TripRecord {
    type V = TripRecordView;

    open spec fn view(&self) -> TripRecordView {
        TripRecordView {
            signature: self.signature@,
            uid: self.uid@,
            date_start: self.date_start@,
            stp_ind: self.stp_ind@,
            trip_id: self.trip_id@,
        }
    }
}

/// A row of the trips table.
pub struct Trip {
    pub route_id: String,
    pub service_id: String,
    pub trip_id: String,
    pub trip_headsign: String,
    pub trip_short_name: String,
}

/// The model of [`Trip`] in contracts.
pub struct TripView {
    pub route_id: Seq<char>,
    pub service_id: Seq<char>,
    pub trip_id: Seq<char>,
    pub trip_headsign: Seq<char>,
    pub trip_short_name: Seq<char>,
}

impl View for Trip {
    type V = TripView;

    open spec fn view(&self) -> TripView {
        TripView {
            route_id: self.route_id@,
            service_id: self.service_id@,
            trip_id: self.trip_id@,
            trip_headsign: self.trip_headsign@,
            trip_short_name: self.trip_short_name@,
        }
    }
}

/// A row of the stop-times table.
pub struct StopTime {
    pub trip_id: String,
    pub arrival_time: String,
    pub departure_time: String,
    pub stop_id: String,
    pub stop_sequence: u64,
}

/// The model of [`StopTime`] in contracts.
pub struct StopTimeView {
    pub trip_id: Seq<char>,
    pub arrival_time: Seq<char>,
    pub departure_time: Seq<char>,
    pub stop_id: Seq<char>,
    pub stop_sequence: nat,
}

impl View for StopTime {
    type V = StopTimeView;

    open spec fn view(&self) -> StopTimeView {
        StopTimeView {
            trip_id: self.trip_id@,
            arrival_time: self.arrival_time@,
            departure_time: self.departure_time@,
            stop_id: self.stop_id@,
            stop_sequence: self.stop_sequence as nat,
        }
    }
}

/// The views of a run of trip rows.
pub open spec fn trip_views(rows: Seq<Trip>) -> Seq<TripView> {
    rows.map_values(|t: Trip| t@)
}

/// The views of a run of stop-time rows.
pub open spec fn stop_time_views(rows: Seq<StopTime>) -> Seq<StopTimeView> {
    rows.map_values(|t: StopTime| t@)
}

/// Whether some trip of `registry` came from the schedule `uid`.
pub open spec fn uid_used(registry: Seq<TripRecordView>, uid: Seq<char>) -> bool {
    exists|j: int| 0 <= j < registry.len() && (#[trigger] registry[j]).uid == uid
}

/// Whether some trip of `registry` has the key `signature`.
pub open spec fn signature_known(
    registry: Seq<TripRecordView>,
    signature: TripServiceSignatureView,
) -> bool {
    exists|j: int| 0 <= j < registry.len() && (#[trigger] registry[j]).signature == signature
}

/// The identifier of a schedule's second and later trips: the schedule's
/// UID, its start date and its revision indicator, joined by underscores.
pub open spec fn suffixed_id(uid: Seq<char>, date_start: Seq<char>, stp_ind: Seq<char>) -> Seq<
    char,
> {
    uid + "_"@ + date_start + "_"@ + stp_ind
}

/// The identifier that a new trip gets: the bare UID when the schedule has
/// no trip yet, the suffixed form afterwards.
pub open spec fn trip_id_of(
    registry: Seq<TripRecordView>,
    uid: Seq<char>,
    date_start: Seq<char>,
    stp_ind: Seq<char>,
) -> Seq<char> {
    if uid_used(registry, uid) {
        suffixed_id(uid, date_start, stp_ind)
    } else {
        uid
    }
}

/// The registry after meeting a trip: unchanged when its key is known, one
/// record longer when it is new.
pub open spec fn registered(
    registry: Seq<TripRecordView>,
    signature: TripServiceSignatureView,
    uid: Seq<char>,
    date_start: Seq<char>,
    stp_ind: Seq<char>,
) -> Seq<TripRecordView> {
    if signature_known(registry, signature) {
        registry
    } else {
        registry.push(
            TripRecordView {
                signature,
                uid,
                date_start,
                stp_ind,
                trip_id: trip_id_of(registry, uid, date_start, stp_ind),
            },
        )
    }
}

/// What holds of every registry that grew by `registered` alone: no key
/// occurs twice, and every record has the identifier that it was due when
/// it was added.
pub open spec fn consistent(registry: Seq<TripRecordView>) -> bool {
    &&& forall|i: int, j: int|
        0 <= i < j < registry.len() ==> (#[trigger] registry[i]).signature != (
        #[trigger] registry[j]).signature
    &&& forall|i: int|
        0 <= i < registry.len() ==> (#[trigger] registry[i]).trip_id == trip_id_of(
            registry.take(i),
            registry[i].uid,
            registry[i].date_start,
            registry[i].stp_ind,
        )
}

/// The trip row of a record.
pub open spec fn trip_row_of(record: TripRecordView) -> TripView {
    TripView {
        route_id: record.signature.trip_sig.route_id,
        service_id: record.signature.service_id,
        trip_id: record.trip_id,
        trip_headsign: record.signature.trip_sig.headsign,
        trip_short_name: record.signature.trip_sig.train_identity,
    }
}

/// The trip rows of a registry: one per record, in order.
pub open spec fn trip_rows_of(registry: Seq<TripRecordView>) -> Seq<TripView> {
    registry.map_values(|r: TripRecordView| trip_row_of(r))
}

/// The stop-time rows of one trip: its stops in order, numbered from 1.
pub open spec fn stop_rows_of(trip_id: Seq<char>, stops: Seq<StopEventView>) -> Seq<
    StopTimeView,
> {
    Seq::new(
        stops.len(),
        |i: int|
            StopTimeView {
                trip_id,
                arrival_time: stops[i].arrival_time,
                departure_time: stops[i].departure_time,
                stop_id: stops[i].stop_id,
                stop_sequence: (i + 1) as nat,
            },
    )
}

/// The stop-time rows of a registry: those of each record, in order.
pub open spec fn stop_time_rows_of(registry: Seq<TripRecordView>) -> Seq<StopTimeView>
    decreases registry.len(),
{
    if registry.len() == 0 {
        Seq::empty()
    } else {
        stop_time_rows_of(registry.drop_last()) + stop_rows_of(
            registry.last().trip_id,
            registry.last().signature.trip_sig.stop_pattern,
        )
    }
}

/// The sequence numbers of a trip's stop-time rows run 1, 2, 3, ...: they
/// start at 1, grow strictly, and no two rows share one.
pub proof fn lemma_stop_sequence(trip_id: Seq<char>, stops: Seq<StopEventView>)
    ensures
        stop_rows_of(trip_id, stops).len() == stops.len(),
        forall|i: int|
            0 <= i < stops.len() ==> (#[trigger] stop_rows_of(trip_id, stops)[i]).stop_sequence
                == i + 1,
        forall|i: int, j: int|
            0 <= i < j < stops.len() ==> (#[trigger] stop_rows_of(
                trip_id,
                stops,
            )[i]).stop_sequence < (#[trigger] stop_rows_of(trip_id, stops)[j]).stop_sequence,
{
}

/// A suffixed identifier is never the bare UID.
pub proof fn lemma_suffixed_differs(uid: Seq<char>, date_start: Seq<char>, stp_ind: Seq<char>)
    ensures
        suffixed_id(uid, date_start, stp_ind) != uid,
{
    reveal_strlit("_");
}

/// Registering keeps a registry consistent.
pub proof fn lemma_registered_consistent(
    registry: Seq<TripRecordView>,
    signature: TripServiceSignatureView,
    uid: Seq<char>,
    date_start: Seq<char>,
    stp_ind: Seq<char>,
)
    requires
        consistent(registry),
    ensures
        consistent(registered(registry, signature, uid, date_start, stp_ind)),
{
    let after = registered(registry, signature, uid, date_start, stp_ind);
    if !signature_known(registry, signature) {
        let n = registry.len() as int;
        assert forall|i: int| 0 <= i < after.len() implies (#[trigger] after[i]).trip_id
            == trip_id_of(after.take(i), after[i].uid, after[i].date_start, after[i].stp_ind) by {
            if i < n {
                assert(after.take(i) =~= registry.take(i));
            } else {
                assert(after.take(i) =~= registry);
            }
        }
    }
}

/// Whether the record at `k` is the first of its schedule.
pub open spec fn is_first_use(registry: Seq<TripRecordView>, k: int) -> bool {
    &&& 0 <= k < registry.len()
    &&& forall|j: int| 0 <= j < k ==> (#[trigger] registry[j]).uid != registry[k].uid
}

/// The first trip of a schedule has the bare UID as its identifier; a
/// later one has the suffixed form, which is never the bare UID.
pub proof fn lemma_trip_id(registry: Seq<TripRecordView>, k: int)
    requires
        consistent(registry),
        0 <= k < registry.len(),
    ensures
        is_first_use(registry, k) ==> registry[k].trip_id == registry[k].uid,
        !is_first_use(registry, k) ==> registry[k].trip_id == suffixed_id(
            registry[k].uid,
            registry[k].date_start,
            registry[k].stp_ind,
        ) && registry[k].trip_id != registry[k].uid,
{
    let earlier = registry.take(k);
    if is_first_use(registry, k) {
        if uid_used(earlier, registry[k].uid) {
            let j = choose|j: int|
                0 <= j < earlier.len() && (#[trigger] earlier[j]).uid == registry[k].uid;
        }
    } else {
        let j = choose|j: int| 0 <= j < k && (#[trigger] registry[j]).uid == registry[k].uid;
        assert(earlier[j] == registry[j]);
        lemma_suffixed_differs(registry[k].uid, registry[k].date_start, registry[k].stp_ind);
    }
}

/// Every schedule with a registered trip has a first one.
pub proof fn lemma_first_use_exists(registry: Seq<TripRecordView>, i: int)
    requires
        0 <= i < registry.len(),
    ensures
        exists|k: int| 0 <= k <= i && is_first_use(registry, k) && registry[k].uid == registry[i].uid,
    decreases i,
{
    if is_first_use(registry, i) {
    } else {
        let j = choose|j: int| 0 <= j < i && (#[trigger] registry[j]).uid == registry[i].uid;
        lemma_first_use_exists(registry, j);
    }
}

/// Among the registered trips of one schedule exactly one has the bare UID
/// as its identifier, and it is the first: every other trip of the schedule
/// was registered later and has the UID suffixed with its own start date
/// and revision indicator.
pub proof fn lemma_bare_uid_once(registry: Seq<TripRecordView>, uid: Seq<char>)
    requires
        consistent(registry),
        uid_used(registry, uid),
    ensures
        exists|k: int|
            {
                &&& 0 <= k < registry.len()
                &&& (#[trigger] registry[k]).uid == uid
                &&& registry[k].trip_id == uid
                &&& forall|j: int|
                    0 <= j < registry.len() && j != k && (#[trigger] registry[j]).uid == uid ==> {
                        &&& k < j
                        &&& registry[j].trip_id == suffixed_id(
                            uid,
                            registry[j].date_start,
                            registry[j].stp_ind,
                        )
                        &&& registry[j].trip_id != uid
                    }
            },
{
    let i = choose|i: int| 0 <= i < registry.len() && (#[trigger] registry[i]).uid == uid;
    lemma_first_use_exists(registry, i);
    let k = choose|k: int| 0 <= k <= i && is_first_use(registry, k) && registry[k].uid == uid;
    lemma_trip_id(registry, k);
    assert forall|j: int|
        0 <= j < registry.len() && j != k && (#[trigger] registry[j]).uid == uid implies {
        &&& k < j
        &&& registry[j].trip_id == suffixed_id(uid, registry[j].date_start, registry[j].stp_ind)
        &&& registry[j].trip_id != uid
    } by {
        lemma_trip_id(registry, j);
    }
}

/// Meeting a trip with a known key a second time registers nothing: no
/// second trip row and no second set of stop-time rows appear.
pub proof fn lemma_duplicate_suppressed(
    registry: Seq<TripRecordView>,
    signature: TripServiceSignatureView,
    uid: Seq<char>,
    date_start: Seq<char>,
    stp_ind: Seq<char>,
    uid2: Seq<char>,
    date_start2: Seq<char>,
    stp_ind2: Seq<char>,
)
    ensures
        ({
            let once = registered(registry, signature, uid, date_start, stp_ind);
            let twice = registered(once, signature, uid2, date_start2, stp_ind2);
            &&& signature_known(once, signature)
            &&& twice == once
            &&& trip_rows_of(twice) == trip_rows_of(once)
            &&& stop_time_rows_of(twice) == stop_time_rows_of(once)
        }),
{
    let once = registered(registry, signature, uid, date_start, stp_ind);
    if !signature_known(registry, signature) {
        assert(once[registry.len() as int].signature == signature);
    }
}

/// A fingerprint continued by a run of stops: each stop's location and
/// times mixed in, stop after stop.
pub open spec fn continued_by_stops(print: u64, stops: Seq<StopEventView>) -> u64
    decreases stops.len(),
{
    if stops.len() == 0 {
        print
    } else {
        let before = continued_by_stops(print, stops.drop_last());
        let stop = stops.last();
        continued(continued(continued(before, stop.stop_id), stop.arrival_time), stop.departure_time)
    }
}

/// The fingerprint of a trip key: its service, route, headsign, train
/// identifier and stops mixed in, one after the other.
pub open spec fn signature_print_of(signature: TripServiceSignatureView) -> u64 {
    let service = continued(FINGERPRINT_SEED, signature.service_id);
    let route = continued(service, signature.trip_sig.route_id);
    let headsign = continued(route, signature.trip_sig.headsign);
    let train = continued(headsign, signature.trip_sig.train_identity);
    continued_by_stops(train, signature.trip_sig.stop_pattern)
}

fn signature_print(signature: &TripServiceSignature) -> (r: u64)
    ensures
        r == signature_print_of(signature@),
{
    let service = mix_text(FINGERPRINT_SEED, signature.service_id.as_str());
    let route = mix_text(service, signature.trip_sig.route_id.as_str());
    let headsign = mix_text(route, signature.trip_sig.headsign.as_str());
    let train = mix_text(headsign, signature.trip_sig.train_identity.as_str());
    let stops = &signature.trip_sig.stop_pattern;
    let ghost all = stop_views(stops@);
    let mut print = train;
    let mut i: usize = 0;
    while i < stops.len()
        invariant
            i <= stops.len(),
            all == stop_views(stops@),
            print == continued_by_stops(train, all.take(i as int)),
        decreases stops.len() - i,
    {
        proof {
            let next = all.take(i as int + 1);
            assert(next.drop_last() =~= all.take(i as int));
        }
        let stop = &stops[i];
        print = mix_text(
            mix_text(mix_text(print, stop.stop_id.as_str()), stop.arrival_time.as_str()),
            stop.departure_time.as_str(),
        );
        i = i + 1;
    }
    assert(all.take(i as int) =~= all);
    print
}

fn same_stops(a: &Vec<StopEvent>, b: &Vec<StopEvent>) -> (r: bool)
    ensures
        r == (stop_views(a@) == stop_views(b@)),
{
    if a.len() != b.len() {
        assert(stop_views(a@).len() != stop_views(b@).len());
        return false;
    }
    let mut i: usize = 0;
    while i < a.len()
        invariant
            i <= a.len(),
            a.len() == b.len(),
            forall|j: int| 0 <= j < i ==> stop_views(a@)[j] == stop_views(b@)[j],
        decreases a.len() - i,
    {
        let same = a[i].stop_id == b[i].stop_id && a[i].arrival_time == b[i].arrival_time
            && a[i].departure_time == b[i].departure_time;
        if !same {
            assert(stop_views(b@)[i as int] == b@[i as int]@);
            return false;
        }
        i = i + 1;
    }
    assert(stop_views(a@) =~= stop_views(b@));
    true
}

fn same_signature(a: &TripServiceSignature, b: &TripServiceSignature) -> (r: bool)
    ensures
        r == (a@ == b@),
{
    a.service_id == b.service_id && a.trip_sig.route_id == b.trip_sig.route_id
        && a.trip_sig.headsign == b.trip_sig.headsign && a.trip_sig.train_identity
        == b.trip_sig.train_identity && same_stops(
        &a.trip_sig.stop_pattern,
        &b.trip_sig.stop_pattern,
    )
}

/// The trips registered so far, in order of registration.
pub struct TripRegistry {
    records: Vec<TripRecord>,
    by_key: Index,
    by_uid: Index,
}

impl View for TripRegistry {
    type V = Seq<TripRecordView>;

    closed spec fn view(&self) -> Seq<TripRecordView> {
        self.records@.map_values(|r: TripRecord| r@)
    }
}

impl TripRegistry {
    /// The registry is consistent, and every record is filed in the two
    /// indexes under the fingerprints of its key and of its UID.
    pub closed spec fn wf(&self) -> bool {
        &&& consistent(self@)
        &&& forall|i: int|
            0 <= i < self@.len() ==> self.by_key.holds(
                signature_print_of((#[trigger] self@[i]).signature),
                i as usize,
            ) && self.by_uid.holds(fingerprint_of(self@[i].uid), i as usize)
    }

    /// A well-formed registry is consistent.
    pub proof fn lemma_wf(&self)
        requires
            self.wf(),
        ensures
            consistent(self@),
    {
    }

    /// An empty registry.
    pub fn new() -> (r: Self)
        ensures
            r.wf(),
            r@ == Seq::<TripRecordView>::empty(),
    {
        TripRegistry { records: Vec::new(), by_key: Index::new(), by_uid: Index::new() }
    }

    /// How many trips are registered.
    pub fn len(&self) -> (n: usize)
        ensures
            n == self@.len(),
    {
        self.records.len()
    }

    /// Whether a trip with this key is registered.
    pub fn knows(&self, signature: &TripServiceSignature) -> (r: bool)
        requires
            self.wf(),
        ensures
            r == signature_known(self@, signature@),
    {
        let n = self.records.len();
        let found = match self.by_key.candidates(signature_print(signature)) {
            Some(found) => found,
            None => {
                assert forall|i: int| 0 <= i < self@.len() implies (#[trigger] self@[i]).signature
                    != signature@ by {
                    assert(i < n);
                }
                return false;
            },
        };
        let mut k: usize = 0;
        while k < found.len()
            invariant
                k <= found.len(),
                forall|j: int|
                    0 <= j < k ==> !(found@[j] < self@.len() && self@[found@[j] as int].signature
                        == signature@),
            decreases found.len() - k,
        {
            let at = found[k];
            if at < self.records.len() && same_signature(&self.records[at].signature, signature) {
                assert(self@[at as int].signature == signature@);
                return true;
            }
            k = k + 1;
        }
        assert forall|i: int| 0 <= i < self@.len() implies (#[trigger] self@[i]).signature
            != signature@ by {
            assert(i < n);
            if self@[i].signature == signature@ {
                assert(self.by_key.holds(signature_print_of(self@[i].signature), i as usize));
                let j = choose|j: int| 0 <= j < found@.len() && found@[j] == i as usize;
                assert(found@[j] as int == i);
            }
        }
        false
    }

    /// Whether a trip of the schedule `uid` is registered.
    pub fn uses(&self, uid: &str) -> (r: bool)
        requires
            self.wf(),
        ensures
            r == uid_used(self@, uid@),
    {
        let n = self.records.len();
        let found = match self.by_uid.candidates(fingerprint(uid)) {
            Some(found) => found,
            None => {
                assert forall|i: int| 0 <= i < self@.len() implies (#[trigger] self@[i]).uid
                    != uid@ by {
                    assert(i < n);
                }
                return false;
            },
        };
        let probe = uid.to_owned();
        let mut k: usize = 0;
        while k < found.len()
            invariant
                k <= found.len(),
                probe@ == uid@,
                forall|j: int|
                    0 <= j < k ==> !(found@[j] < self@.len() && self@[found@[j] as int].uid
                        == uid@),
            decreases found.len() - k,
        {
            let at = found[k];
            if at < self.records.len() && self.records[at].uid == probe {
                assert(self@[at as int].uid == uid@);
                return true;
            }
            k = k + 1;
        }
        assert forall|i: int| 0 <= i < self@.len() implies (#[trigger] self@[i]).uid != uid@ by {
            assert(i < n);
            if self@[i].uid == uid@ {
                assert(self.by_uid.holds(fingerprint_of(self@[i].uid), i as usize));
                let j = choose|j: int| 0 <= j < found@.len() && found@[j] == i as usize;
                assert(found@[j] as int == i);
            }
        }
        false
    }

    /// Registers a trip unless its key is known. Returns the identifier
    /// given to a new trip, `None` for a suppressed duplicate.
    pub fn register(
        &mut self,
        signature: TripServiceSignature,
        uid: String,
        date_start: String,
        stp_ind: String,
    ) -> (r: Option<String>)
        requires
            old(self).wf(),
        ensures
            final(self).wf(),
            final(self)@ == registered(old(self)@, signature@, uid@, date_start@, stp_ind@),
            match r {
                Some(id) => !signature_known(old(self)@, signature@) && id@ == trip_id_of(
                    old(self)@,
                    uid@,
                    date_start@,
                    stp_ind@,
                ),
                None => signature_known(old(self)@, signature@),
            },
    {
        let ghost before = self@;
        proof {
            lemma_registered_consistent(before, signature@, uid@, date_start@, stp_ind@);
        }
        if self.knows(&signature) {
            return None;
        }
        let trip_id = if self.uses(uid.as_str()) {
            let mut id = uid.clone();
            id.append("_");
            id.append(date_start.as_str());
            id.append("_");
            id.append(stp_ind.as_str());
            id
        } else {
            uid.clone()
        };
        let n = self.records.len();
        self.by_key.add(signature_print(&signature), n);
        self.by_uid.add(fingerprint(uid.as_str()), n);
        let record = TripRecord { signature, uid, date_start, stp_ind, trip_id: trip_id.clone() };
        self.records.push(record);
        assert(self@ =~= before.push(record@));
        Some(trip_id)
    }

    /// The trip rows: one per registered trip, in order of registration.
    pub fn trip_rows(&self) -> (rows: Vec<Trip>)
        ensures
            trip_views(rows@) == trip_rows_of(self@),
    {
        let mut rows: Vec<Trip> = Vec::new();
        let mut i: usize = 0;
        while i < self.records.len()
            invariant
                i <= self.records.len(),
                rows@.len() == i,
                forall|j: int| 0 <= j < i ==> (#[trigger] rows@[j])@ == trip_row_of(self@[j]),
            decreases self.records.len() - i,
        {
            let r = &self.records[i];
            rows.push(
                Trip {
                    route_id: r.signature.trip_sig.route_id.clone(),
                    service_id: r.signature.service_id.clone(),
                    trip_id: r.trip_id.clone(),
                    trip_headsign: r.signature.trip_sig.headsign.clone(),
                    trip_short_name: r.signature.trip_sig.train_identity.clone(),
                },
            );
            i = i + 1;
        }
        rows
    }

    /// The stop-time rows: for each registered trip in order, its stops in
    /// order, numbered from 1 and carrying the trip's identifier.
    pub fn stop_time_rows(&self) -> (rows: Vec<StopTime>)
        ensures
            stop_time_views(rows@) == stop_time_rows_of(self@),
    {
        let mut rows: Vec<StopTime> = Vec::new();
        let mut i: usize = 0;
        while i < self.records.len()
            invariant
                i <= self.records.len(),
                stop_time_views(rows@) == stop_time_rows_of(self@.take(i as int)),
            decreases self.records.len() - i,
        {
            let r = &self.records[i];
            let ghost done = stop_time_views(rows@);
            let ghost part = stop_rows_of(r.trip_id@, stop_views(r.signature.trip_sig.stop_pattern@));
            let mut k: usize = 0;
            while k < r.signature.trip_sig.stop_pattern.len()
                invariant
                    k <= r.signature.trip_sig.stop_pattern.len(),
                    part == stop_rows_of(r.trip_id@, stop_views(r.signature.trip_sig.stop_pattern@)),
                    stop_time_views(rows@) == done + part.take(k as int),
                decreases r.signature.trip_sig.stop_pattern.len() - k,
            {
                let stop = &r.signature.trip_sig.stop_pattern[k];
                let ghost so_far = stop_time_views(rows@);
                let row = StopTime {
                    trip_id: r.trip_id.clone(),
                    arrival_time: stop.arrival_time.clone(),
                    departure_time: stop.departure_time.clone(),
                    stop_id: stop.stop_id.clone(),
                    stop_sequence: k as u64 + 1,
                };
                rows.push(row);
                assert(stop_time_views(rows@) =~= so_far.push(row@));
                k = k + 1;
            }
            proof {
                let upto = self@.take(i as int + 1);
                assert(upto.drop_last() =~= self@.take(i as int));
            }
            i = i + 1;
        }
        assert(self@.take(i as int) =~= self@);
        rows
    }
}

} // verus!
