//! Decisions around a search: which trip of a trip-search response is the
//! answer, and how the stop ids of several location searches combine.
use vstd::prelude::*;
use crate::error::OjpError;
use crate::simplify::{legs_of, simplify_outcome, SimplifiedTrip};
use crate::time::{datetime_text, format_datetime, Timestamp};
use crate::wire::OJP;

verus! {

/// The message for a search that found no trip at or after `t`.
pub open spec fn no_trip_message(t: int) -> Seq<char> {
    "No trip departing after "@ + datetime_text(t) + " was found."@
}

impl OJP {
    /// The answer to a search from `from_id` to `to_id` at `date_time`: the
    /// server's own problem report, else the first trip that starts at
    /// `date_time` or later, simplified.
    pub fn select_trip(&self, from_id: i32, to_id: i32, date_time: Timestamp) -> (r: Result<
        SimplifiedTrip,
        OjpError,
    >)
        ensures
            match self.spec_error() {
                Some(m) => r matches Err(OjpError::FailedToFindTrip { dep_id, arr_id, msg }) && dep_id
                    == from_id && arr_id == to_id && msg@ == m,
                None => match self.spec_trips_departing_after(date_time@) {
                    None => r matches Err(OjpError::FailedToFindTrip { dep_id, arr_id, msg })
                        && dep_id == from_id && arr_id == to_id && msg@ == no_trip_message(
                        date_time@,
                    ),
                    Some(ts) => simplify_outcome(
                        ts[0].trip.legs@,
                        ts[0].trip.start_time@,
                        legs_of(r),
                    ),
                },
            },
    {
        if let Some(msg) = self.error() {
            return Err(OjpError::FailedToFindTrip { dep_id: from_id, arr_id: to_id, msg: msg.to_string() });
        }
        match self.trip_departing_after(date_time, 0) {
            Some(trip) => SimplifiedTrip::from_trip(trip),
            None => {
                let mut msg = String::new();
                msg.append("No trip departing after ");
                let when = format_datetime(date_time);
                msg.append(when.as_str());
                msg.append(" was found.");
                Err(OjpError::FailedToFindTrip { dep_id: from_id, arr_id: to_id, msg })
            },
        }
    }
}

/// The ids of all searches in order, or the first search's error.
pub open spec fn merged_ids(results: Seq<Result<Vec<i32>, OjpError>>) -> Result<Seq<i32>, OjpError>
    decreases results.len(),
{
    if results.len() == 0 {
        Ok(Seq::empty())
    } else {
        match merged_ids(results.drop_last()) {
            Err(e) => Err(e),
            Ok(ids) => match results.last() {
                Err(e) => Err(e),
                Ok(v) => Ok(ids + v@),
            },
        }
    }
}

proof fn lemma_merge_error_extends(results: Seq<Result<Vec<i32>, OjpError>>, k: int)
    requires
        0 <= k <= results.len(),
        merged_ids(results.take(k)) is Err,
    ensures
        merged_ids(results) == merged_ids(results.take(k)),
    decreases results.len() - k,
{
    if k < results.len() {
        assert(results.take(k + 1).drop_last() =~= results.take(k));
        lemma_merge_error_extends(results, k + 1);
    } else {
        assert(results.take(k) =~= results);
    }
}

/// Joins the stop ids of several location searches, in order; fails with the
/// first search that failed.
pub fn merge_stop_ids(results: Vec<Result<Vec<i32>, OjpError>>) -> (r: Result<Vec<i32>, OjpError>)
    ensures
        match merged_ids(results@) {
            Ok(ids) => r matches Ok(v) && v@ == ids,
            Err(e) => r == Err::<Vec<i32>, OjpError>(e),
        },
{
    let ghost all = results@;
    let total = results.len();
    let mut rest = results;
    let mut ids: Vec<i32> = Vec::new();
    let mut k: usize = 0;
    while rest.len() > 0
        invariant
            k + rest@.len() == all.len(),
            all.len() == total,
            all == results@,
            rest@ == all.skip(k as int),
            merged_ids(all.take(k as int)) == Ok::<Seq<i32>, OjpError>(ids@),
        decreases rest@.len(),
    {
        let next = rest.remove(0);
        assert(all.take(k + 1).drop_last() =~= all.take(k as int));
        assert(all.take(k + 1).last() == next);
        match next {
            Ok(v) => {
                let mut v = v;
                ids.append(&mut v);
            },
            Err(e) => {
                proof {
                    assert(merged_ids(all.take(k + 1)) == Err::<Seq<i32>, OjpError>(e));
                    lemma_merge_error_extends(all, k + 1);
                }
                return Err(e);
            },
        }
        k = k + 1;
        assert(rest@ =~= all.skip(k as int));
    }
    assert(all.take(k as int) =~= all);
    Ok(ids)
}

} // verus!
