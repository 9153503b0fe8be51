//! The parts of a journey-planner response that the library reads: trip
//! results with their legs, place results, and the server's error condition.
use vstd::prelude::*;
use crate::error::OjpError;
use crate::time::Timestamp;

verus! {

/// Where a transfer or a continuous movement starts or ends.
pub struct LegEndpoint {
    pub stop_point_ref: String,
    pub name: String,
}

/// Planned and, where known, estimated time of a service event.
pub struct ServiceTime {
    pub timetabled_time: Timestamp,
    pub estimated_time: Option<Timestamp>,
}

/// Where a timed leg is boarded.
pub struct LegBoard {
    pub stop_point_ref: String,
    pub stop_point_name: String,
    pub service_departure: ServiceTime,
}

/// Where a timed leg is left.
pub struct LegAlight {
    pub stop_point_ref: String,
    pub stop_point_name: String,
    pub service_arrival: ServiceTime,
}

/// The transport mode of a service.
pub struct Mode {
    pub pt_mode: String,
    pub name: String,
}

/// The service that runs a timed leg.
pub struct Service {
    pub mode: Mode,
}

/// A ride on a timetabled service.
pub struct TimedLeg {
    pub leg_board: LegBoard,
    pub leg_alight: LegAlight,
    pub service: Service,
}

/// A walk or interchange between two stops, without timetable.
pub struct TransferLeg {
    pub transfer_type: String,
    pub leg_start: LegEndpoint,
    pub leg_end: LegEndpoint,
    /// Seconds.
    pub duration: i64,
}

/// The personal means of a continuous movement.
pub struct ContinuousService {
    pub personal_mode: String,
}

/// A movement by personal means (walking, cycling, driving), without timetable.
pub struct ContinuousLeg {
    pub leg_start: LegEndpoint,
    pub leg_end: LegEndpoint,
    pub service: ContinuousService,
    /// Seconds.
    pub duration: i64,
}

/// One leg of a trip as received: the schema says that exactly one of the
/// three shapes is present, but nothing enforces it.
pub struct Leg {
    pub timed_leg: Option<TimedLeg>,
    pub transfer_leg: Option<TransferLeg>,
    pub continuous_leg: Option<ContinuousLeg>,
}

/// One trip of a trip result, its legs ordered from origin to destination.
pub struct Trip {
    /// Seconds.
    pub duration: i64,
    pub start_time: Timestamp,
    pub end_time: Timestamp,
    pub transfers: u32,
    pub legs: Vec<Leg>,
}

/// Start, end and duration of a trip.
#[derive(Debug, Clone, Copy, PartialEq, Eq)]
pub struct TripInfo {
    pub departure_time: Timestamp,
    pub arrival_time: Timestamp,
    /// Seconds.
    pub duration: i64,
}

pub struct TripResult {
    pub id: String,
    pub trip: Trip,
}

/// The problem that the server reports for a trip search.
pub struct ErrorCondition {
    pub trip_problem_type: String,
}

pub struct TripDelivery {
    pub trip_results: Vec<TripResult>,
    pub error_condition: Option<ErrorCondition>,
}

pub struct StopPlace {
    pub stop_place_ref: i32,
    pub stop_place_name: String,
}

/// A located entity: a stop place, or another kind of place without one.
pub struct Place {
    pub stop_place: Option<StopPlace>,
    pub name: String,
}

pub struct PlaceResult {
    pub place: Place,
}

pub struct LocationInformationDelivery {
    pub place_results: Vec<PlaceResult>,
}

/// The delivery sections of a response; a response carries one of them.
pub struct ServiceDelivery {
    pub ojp_trip_delivery: Option<TripDelivery>,
    pub ojp_location_information_delivery: Option<LocationInformationDelivery>,
}

/// A parsed response.
pub struct OJP {
    pub service_delivery: ServiceDelivery,
}

/// The values behind a sequence of references.
pub open spec fn derefs<T>(s: Seq<&T>) -> Seq<T> {
    s.map_values(|x: &T| *x)
}

/// The trip results that start at `t` or later, in their order.
pub open spec fn departing_after(trips: Seq<TripResult>, t: int) -> Seq<TripResult> {
    trips.filter(|r: TripResult| r.trip.start_time@ >= t)
}

/// The stop-place ids of place results, in order, skipping those without one.
pub open spec fn stop_place_ids(places: Seq<PlaceResult>) -> Seq<i32>
    decreases places.len(),
{
    if places.len() == 0 {
        Seq::empty()
    } else {
        let ids = stop_place_ids(places.drop_last());
        match places.last().place.stop_place {
            Some(sp) => ids.push(sp.stop_place_ref),
            None => ids,
        }
    }
}

proof fn lemma_derefs_push<T>(s: Seq<&T>, x: &T)
    ensures
        derefs(s.push(x)) == derefs(s).push(*x),
{
    assert(derefs(s.push(x)) =~= derefs(s).push(*x));
}

pub(crate) fn refs_of<T>(v: &Vec<T>) -> (r: Vec<&T>)
    ensures
        derefs(r@) == v@,
{
    let mut out: Vec<&T> = Vec::new();
    let mut i: usize = 0;
    while i < v.len()
        invariant
            i <= v@.len(),
            derefs(out@) == v@.take(i as int),
        decreases v@.len() - i,
    {
        proof {
            lemma_derefs_push(out@, &v@[i as int]);
            assert(v@.take(i + 1) =~= v@.take(i as int).push(v@[i as int]));
        }
        out.push(&v[i]);
        i = i + 1;
    }
    assert(v@.take(i as int) =~= v@);
    out
}

impl PlaceResult {
    /// Id of the stop place, where the place is one.
    pub fn stop_place_ref(&self) -> (r: Option<i32>)
        ensures
            match self.place.stop_place {
                Some(sp) => r == Some(sp.stop_place_ref),
                None => r is None,
            },
    {
        match &self.place.stop_place {
            Some(sp) => Some(sp.stop_place_ref),
            None => None,
        }
    }

    /// Name of the stop place, where the place is one.
    pub fn stop_place_name(&self) -> (r: Option<&str>)
        ensures
            match self.place.stop_place {
                Some(sp) => r matches Some(n) && n@ == sp.stop_place_name@,
                None => r is None,
            },
    {
        match &self.place.stop_place {
            Some(sp) => Some(sp.stop_place_name.as_str()),
            None => None,
        }
    }
}

impl OJP {
    /// The trip results, where the response has a trip delivery.
    pub open spec fn spec_trips(&self) -> Option<Seq<TripResult>> {
        match self.service_delivery.ojp_trip_delivery {
            Some(d) => Some(d.trip_results@),
            None => None,
        }
    }

    /// The place results, where the response has a location delivery.
    pub open spec fn spec_place_results(&self) -> Option<Seq<PlaceResult>> {
        match self.service_delivery.ojp_location_information_delivery {
            Some(d) => Some(d.place_results@),
            None => None,
        }
    }

    /// The problem text of the trip delivery, if any.
    pub open spec fn spec_error(&self) -> Option<Seq<char>> {
        match self.service_delivery.ojp_trip_delivery {
            Some(d) => match d.error_condition {
                Some(c) => Some(c.trip_problem_type@),
                None => None,
            },
            None => None,
        }
    }

    /// The trip results that start at `t` or later; none where there are none.
    pub open spec fn spec_trips_departing_after(&self, t: int) -> Option<Seq<TripResult>> {
        match self.spec_trips() {
            Some(ts) => if departing_after(ts, t).len() > 0 {
                Some(departing_after(ts, t))
            } else {
                None
            },
            None => None,
        }
    }

    /// All trip results, in order, or `None` without a trip delivery.
    pub fn trips(&self) -> (r: Option<Vec<&TripResult>>)
        ensures
            match self.spec_trips() {
                Some(ts) => r matches Some(v) && derefs(v@) == ts,
                None => r is None,
            },
    {
        match &self.service_delivery.ojp_trip_delivery {
            Some(d) => Some(refs_of(&d.trip_results)),
            None => None,
        }
    }

    /// All place results, in order, or `None` without a location delivery.
    pub fn place_results(&self) -> (r: Option<Vec<&PlaceResult>>)
        ensures
            match self.spec_place_results() {
                Some(ps) => r matches Some(v) && derefs(v@) == ps,
                None => r is None,
            },
    {
        match &self.service_delivery.ojp_location_information_delivery {
            Some(d) => Some(refs_of(&d.place_results)),
            None => None,
        }
    }

    /// The trip results that start at `date_time` or later, in their order;
    /// `None` where there is no such trip or no trip delivery.
    pub fn trips_departing_after(&self, date_time: Timestamp) -> (r: Option<Vec<&TripResult>>)
        ensures
            match self.spec_trips_departing_after(date_time@) {
                Some(ts) => r matches Some(v) && derefs(v@) == ts,
                None => r is None,
            },
    {
        let trips = match &self.service_delivery.ojp_trip_delivery {
            Some(d) => &d.trip_results,
            None => {
                return None;
            },
        };
        let bound = date_time.seconds();
        let ghost pred = |r: TripResult| r.trip.start_time@ >= date_time@;
        let mut out: Vec<&TripResult> = Vec::new();
        let mut i: usize = 0;
        while i < trips.len()
            invariant
                i <= trips@.len(),
                bound == date_time@,
                pred == (|r: TripResult| r.trip.start_time@ >= date_time@),
                derefs(out@) == trips@.take(i as int).filter(pred),
            decreases trips@.len() - i,
        {
            let tr = &trips[i];
            proof {
                reveal(Seq::filter);
                assert(trips@.take(i + 1).drop_last() =~= trips@.take(i as int));
            }
            proof {
                lemma_derefs_push(out@, tr);
                assert(trips@.take(i + 1).last() == trips@[i as int]);
                assert(trips@.take(i + 1).filter(pred) == if pred(trips@[i as int]) {
                    trips@.take(i as int).filter(pred).push(trips@[i as int])
                } else {
                    trips@.take(i as int).filter(pred)
                });
            }
            if tr.trip.start_time.seconds() >= bound {
                out.push(tr);
            }
            i = i + 1;
        }
        assert(trips@.take(i as int) =~= trips@);
        if out.len() == 0 {
            None
        } else {
            Some(out)
        }
    }

    /// The `index`-th trip that starts at `date_time` or later, if any.
    pub fn trip_departing_after(&self, date_time: Timestamp, index: usize) -> (r: Option<&Trip>)
        ensures
            match self.spec_trips_departing_after(date_time@) {
                Some(ts) => if index < ts.len() {
                    r == Some(&ts[index as int].trip)
                } else {
                    r is None
                },
                None => r is None,
            },
    {
        let trips = match self.trips_departing_after(date_time) {
            Some(v) => v,
            None => {
                return None;
            },
        };
        if index < trips.len() {
            Some(&trips[index].trip)
        } else {
            None
        }
    }

    /// The `index`-th trip of the response, if any.
    pub fn trip(&self, index: usize) -> (r: Option<&Trip>)
        ensures
            match self.spec_trips() {
                Some(ts) => if index < ts.len() {
                    r == Some(&ts[index as int].trip)
                } else {
                    r is None
                },
                None => r is None,
            },
    {
        match &self.service_delivery.ojp_trip_delivery {
            Some(d) => if index < d.trip_results.len() {
                Some(&d.trip_results[index].trip)
            } else {
                None
            },
            None => None,
        }
    }

    /// The stop-place ids of a location search, in order, skipping place
    /// results without a stop place.
    pub fn stop_place_ids(&self) -> (r: Result<Vec<i32>, OjpError>)
        ensures
            match self.spec_place_results() {
                Some(ps) => r matches Ok(v) && v@ == stop_place_ids(ps),
                None => r == Err::<Vec<i32>, OjpError>(OjpError::PlaceResultsNotFound),
            },
    {
        let places = match &self.service_delivery.ojp_location_information_delivery {
            Some(d) => &d.place_results,
            None => {
                return Err(OjpError::PlaceResultsNotFound);
            },
        };
        let mut ids: Vec<i32> = Vec::new();
        let mut i: usize = 0;
        while i < places.len()
            invariant
                i <= places@.len(),
                ids@ == stop_place_ids(places@.take(i as int)),
            decreases places@.len() - i,
        {
            proof {
                assert(places@.take(i + 1).drop_last() =~= places@.take(i as int));
            }
            if let Some(id) = places[i].stop_place_ref() {
                ids.push(id);
            }
            i = i + 1;
        }
        assert(places@.take(i as int) =~= places@);
        Ok(ids)
    }

    /// The problem text that the server reported for a trip search, if any.
    pub fn error(&self) -> (r: Option<&str>)
        ensures
            match self.spec_error() {
                Some(m) => r matches Some(t) && t@ == m,
                None => r is None,
            },
    {
        match &self.service_delivery.ojp_trip_delivery {
            Some(d) => match &d.error_condition {
                Some(c) => Some(c.trip_problem_type.as_str()),
                None => None,
            },
            None => None,
        }
    }
}

/// Indices into `ts` of the trip results that start at `t` or later, in
/// increasing order.
proof fn departing_indices(ts: Seq<TripResult>, t: int) -> (idx: Seq<int>)
    ensures
        idx.len() == departing_after(ts, t).len(),
        forall|k: int|
            0 <= k < idx.len() ==> 0 <= #[trigger] idx[k] < ts.len() && ts[idx[k]]
                == departing_after(ts, t)[k] && ts[idx[k]].trip.start_time@ >= t,
        forall|a: int, b: int| 0 <= a < b < idx.len() ==> idx[a] < idx[b],
        forall|j: int|
            0 <= j < ts.len() && (#[trigger] ts[j]).trip.start_time@ >= t ==> exists|k: int|
                0 <= k < idx.len() && idx[k] == j,
    decreases ts.len(),
{
    reveal(Seq::filter);
    if ts.len() == 0 {
        Seq::empty()
    } else {
        let init = ts.drop_last();
        let prev = departing_indices(init, t);
        let n = ts.len() - 1;
        assert(forall|j: int| 0 <= j < n ==> #[trigger] init[j] == ts[j]);
        if ts.last().trip.start_time@ >= t {
            let idx = prev.push(n);
            assert forall|j: int|
                0 <= j < ts.len() && (#[trigger] ts[j]).trip.start_time@ >= t implies exists|k: int|
                    0 <= k < idx.len() && idx[k] == j by {
                if j == n {
                    assert(idx[prev.len() as int] == j);
                } else {
                    assert(init[j] == ts[j]);
                    let k = choose|k: int| 0 <= k < prev.len() && prev[k] == j;
                    assert(idx[k] == j);
                }
            }
            idx
        } else {
            assert forall|j: int|
                0 <= j < ts.len() && (#[trigger] ts[j]).trip.start_time@ >= t implies exists|k: int|
                    0 <= k < prev.len() && prev[k] == j by {
                assert(j != n);
                assert(init[j] == ts[j]);
            }
            prev
        }
    }
}

/// The trips that depart at or after a time keep the response's order: each
/// is a trip result of the response starting at that time or later, every
/// such trip result is among them, and of two of them the one listed first
/// is also listed first in the response. There are none exactly when the
/// response has no trip delivery or none of its trips departs that late.
pub proof fn lemma_departing_after_keeps_order(ojp: OJP, t: int)
    ensures
        match ojp.spec_trips() {
            None => ojp.spec_trips_departing_after(t) is None,
            Some(ts) => {
                &&& ojp.spec_trips_departing_after(t) is None <==> forall|j: int|
                    0 <= j < ts.len() ==> (#[trigger] ts[j]).trip.start_time@ < t
                &&& ojp.spec_trips_departing_after(t) matches Some(f) ==> exists|idx: Seq<int>|
                    {
                        &&& idx.len() == f.len()
                        &&& forall|k: int|
                            0 <= k < f.len() ==> 0 <= #[trigger] idx[k] < ts.len() && f[k]
                                == ts[idx[k]] && f[k].trip.start_time@ >= t
                        &&& forall|a: int, b: int| 0 <= a < b < f.len() ==> idx[a] < idx[b]
                        &&& forall|j: int|
                            0 <= j < ts.len() && (#[trigger] ts[j]).trip.start_time@ >= t
                                ==> exists|k: int| 0 <= k < f.len() && idx[k] == j
                    }
            },
        },
{
    if let Some(ts) = ojp.spec_trips() {
        let idx = departing_indices(ts, t);
        let f = departing_after(ts, t);
        if f.len() == 0 {
            assert forall|j: int| 0 <= j < ts.len() implies (#[trigger] ts[j]).trip.start_time@
                < t by {
                if ts[j].trip.start_time@ >= t {
                    let k = choose|k: int| 0 <= k < idx.len() && idx[k] == j;
                }
            }
        } else {
            assert(ts[idx[0]].trip.start_time@ >= t);
        }
    }
}

} // verus!
