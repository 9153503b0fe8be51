//! Folds the legs of a trip into uniform legs with concrete times and
//! numeric stop ids.
use vstd::prelude::*;
use crate::error::OjpError;
use crate::leg::{resolved, LegType};
use crate::stop_id::{lemma_outcome_code, stop_code, stop_ref_outcome};
use crate::time::{clock_text, datetime_text, format_clock, format_datetime, Timestamp, TIMESTAMP_LIMIT};
use crate::wire::{derefs, refs_of, Leg, Trip, TripInfo};

verus! {

/// A leg with every field filled, whatever kind it came from.
#[derive(Debug)]
pub struct SimplifiedLeg {
    pub departure_id: i32,
    pub departure_stop: String,
    pub arrival_id: i32,
    pub arrival_stop: String,
    pub departure_time: Timestamp,
    pub arrival_time: Timestamp,
    pub mode: String,
}

impl Clone for SimplifiedLeg {
    fn clone(&self) -> (r: SimplifiedLeg)
        ensures
            r == *self,
    {
        SimplifiedLeg {
            departure_id: self.departure_id,
            departure_stop: self.departure_stop.clone(),
            arrival_id: self.arrival_id,
            arrival_stop: self.arrival_stop.clone(),
            departure_time: self.departure_time,
            arrival_time: self.arrival_time,
            mode: self.mode.clone(),
        }
    }
}

impl SimplifiedLeg {
    pub fn new(
        departure_id: i32,
        departure_stop: &str,
        arrival_id: i32,
        arrival_stop: &str,
        departure_time: Timestamp,
        arrival_time: Timestamp,
        mode: String,
    ) -> (r: SimplifiedLeg)
        ensures
            r.departure_id == departure_id,
            r.departure_stop@ == departure_stop@,
            r.arrival_id == arrival_id,
            r.arrival_stop@ == arrival_stop@,
            r.departure_time == departure_time,
            r.arrival_time == arrival_time,
            r.mode == mode,
    {
        SimplifiedLeg {
            departure_id,
            departure_stop: departure_stop.to_string(),
            arrival_id,
            arrival_stop: arrival_stop.to_string(),
            departure_time,
            arrival_time,
            mode,
        }
    }
}

/// When a leg starts, given when the leg before it arrived: its own
/// timetabled departure, else the arrival before it.
pub open spec fn leg_departure(v: LegType, prev: int) -> int {
    match v.spec_departure_time() {
        Some(t) => t@,
        None => prev,
    }
}

/// When a leg arrives: its own timetabled arrival, else its departure plus
/// its duration.
pub open spec fn leg_arrival(v: LegType, prev: int) -> int {
    match v.spec_arrival_time() {
        Some(t) => t@,
        None => leg_departure(v, prev) + v.spec_duration(),
    }
}

/// The arrival that leg `k` of `legs` carries forward from the legs before it;
/// `start` for the first leg.
pub open spec fn carried_arrival(legs: Seq<Leg>, start: int, k: int) -> int
    decreases k,
{
    if k <= 0 {
        start
    } else {
        let prev = carried_arrival(legs, start, k - 1);
        match resolved(&legs[k - 1]) {
            Some(v) => leg_arrival(v, prev),
            None => prev,
        }
    }
}

/// Whether a leg, reached at `prev`, simplifies: it resolves, both stop
/// references have codes, and an arrival that it has to compute is a
/// timestamp.
pub open spec fn leg_simplifies(leg: Leg, prev: int) -> bool {
    match resolved(&leg) {
        None => false,
        Some(v) => stop_code(v.spec_departure_ref()) is Some && stop_code(v.spec_arrival_ref()) is Some
            && (v.spec_arrival_time() is Some || -TIMESTAMP_LIMIT <= leg_arrival(v, prev)
            <= TIMESTAMP_LIMIT),
    }
}

/// The error that a leg, reached at `prev`, stops the fold with.
pub open spec fn leg_error(leg: Leg, prev: int, e: OjpError) -> bool {
    match resolved(&leg) {
        None => e == OjpError::UnkownLegType,
        Some(v) => if stop_code(v.spec_departure_ref()) is None {
            stop_ref_outcome(v.spec_departure_ref(), Err(e))
        } else if stop_code(v.spec_arrival_ref()) is None {
            stop_ref_outcome(v.spec_arrival_ref(), Err(e))
        } else {
            e == OjpError::FailedToConvertToSimplifiedTrip
        },
    }
}

/// Whether `out` is what a leg, reached at `prev`, simplifies to.
pub open spec fn leg_simplified(out: SimplifiedLeg, leg: Leg, prev: int) -> bool {
    match resolved(&leg) {
        None => false,
        Some(v) => {
            &&& stop_code(v.spec_departure_ref()) == Some(out.departure_id as int)
            &&& stop_code(v.spec_arrival_ref()) == Some(out.arrival_id as int)
            &&& out.departure_stop@ == v.spec_departure_stop()
            &&& out.arrival_stop@ == v.spec_arrival_stop()
            &&& out.departure_time@ == leg_departure(v, prev)
            &&& out.arrival_time@ == leg_arrival(v, prev)
            &&& out.mode@ == v.spec_mode()
        },
    }
}

/// What simplifying the legs of a trip that starts at `start` gives.
pub open spec fn simplify_outcome(
    legs: Seq<Leg>,
    start: int,
    r: Result<Seq<SimplifiedLeg>, OjpError>,
) -> bool {
    match r {
        Ok(out) => {
            &&& legs.len() > 0
            &&& out.len() == legs.len()
            &&& forall|k: int|
                0 <= k < legs.len() ==> leg_simplifies(
                    #[trigger] legs[k],
                    carried_arrival(legs, start, k),
                ) && leg_simplified(out[k], legs[k], carried_arrival(legs, start, k))
        },
        Err(e) => {
            ||| legs.len() == 0 && e == OjpError::FailedToConvertToSimplifiedTrip
            ||| exists|k: int|
                0 <= k < legs.len() && (forall|j: int|
                    0 <= j < k ==> leg_simplifies(#[trigger] legs[j], carried_arrival(legs, start, j)))
                    && !leg_simplifies(legs[k], carried_arrival(legs, start, k)) && leg_error(
                    legs[k],
                    carried_arrival(legs, start, k),
                    e,
                )
        },
    }
}

proof fn lemma_fails_at(legs: Seq<Leg>, start: int, i: int, e: OjpError)
    requires
        0 <= i < legs.len(),
        forall|j: int|
            0 <= j < i ==> leg_simplifies(#[trigger] legs[j], carried_arrival(legs, start, j)),
        !leg_simplifies(legs[i], carried_arrival(legs, start, i)),
        leg_error(legs[i], carried_arrival(legs, start, i), e),
    ensures
        simplify_outcome(legs, start, Err(e)),
{
}

/// Simplifies one leg reached at `prev`.
fn simplify_leg(leg: &Leg, prev: Timestamp) -> (r: Result<SimplifiedLeg, OjpError>)
    ensures
        match r {
            Ok(out) => leg_simplifies(*leg, prev@) && leg_simplified(out, *leg, prev@),
            Err(e) => !leg_simplifies(*leg, prev@) && leg_error(*leg, prev@, e),
        },
{
    let typed = match LegType::from_leg(leg) {
        Ok(v) => v,
        Err(e) => {
            return Err(e);
        },
    };
    let departure_id = match typed.departure_id() {
        Ok(v) => v,
        Err(e) => {
            proof {
                lemma_outcome_code(typed.spec_departure_ref(), Err(e));
            }
            return Err(e);
        },
    };
    proof {
        lemma_outcome_code(typed.spec_departure_ref(), Ok(departure_id));
    }
    let arrival_id = match typed.arrival_id() {
        Ok(v) => v,
        Err(e) => {
            proof {
                lemma_outcome_code(typed.spec_arrival_ref(), Err(e));
            }
            return Err(e);
        },
    };
    proof {
        lemma_outcome_code(typed.spec_arrival_ref(), Ok(arrival_id));
    }
    let departure_time = match typed.departure_time() {
        Some(t) => t,
        None => prev,
    };
    let arrival_time = match typed.arrival_time() {
        Some(t) => t,
        None => match departure_time.checked_add(typed.duration()) {
            Some(t) => t,
            None => {
                return Err(OjpError::FailedToConvertToSimplifiedTrip);
            },
        },
    };
    Ok(
        SimplifiedLeg::new(
            departure_id,
            typed.departure_stop(),
            arrival_id,
            typed.arrival_stop(),
            departure_time,
            arrival_time,
            typed.mode().to_string(),
        ),
    )
}

/// The legs of a simplified trip, or the error.
pub open spec fn legs_of(r: Result<SimplifiedTrip, OjpError>) -> Result<Seq<SimplifiedLeg>, OjpError> {
    match r {
        Ok(st) => Ok(st@),
        Err(e) => Err(e),
    }
}

/// A trip as a non-empty sequence of uniform legs.
#[derive(Debug)]
pub struct SimplifiedTrip {
    legs: Vec<SimplifiedLeg>,
}

impl View for SimplifiedTrip {
    type V = Seq<SimplifiedLeg>;

    closed spec fn view(&self) -> Seq<SimplifiedLeg> {
        self.legs@
    }
}

impl Clone for SimplifiedTrip {
    fn clone(&self) -> (r: SimplifiedTrip)
        ensures
            r@ == self@,
    {
        proof {
            use_type_invariant(self);
        }
        let legs = self.legs.clone();
        assert(legs@ =~= self.legs@);
        SimplifiedTrip { legs }
    }
}

impl SimplifiedTrip {
    #[verifier::type_invariant]
    spec fn has_legs(self) -> bool {
        self.legs@.len() > 0
    }

    pub fn new(legs: Vec<SimplifiedLeg>) -> (r: SimplifiedTrip)
        requires
            legs@.len() > 0,
        ensures
            r@ == legs@,
    {
        SimplifiedTrip { legs }
    }

    /// Simplifies a trip: resolves each leg in order, carries the previous
    /// arrival (the trip's start for the first leg) into legs without
    /// timetable, and stops at the first leg that fails.
    pub fn from_trip(trip: &Trip) -> (r: Result<SimplifiedTrip, OjpError>)
        ensures
            simplify_outcome(trip.legs@, trip.start_time@, legs_of(r)),
    {
        let legs = &trip.legs;
        let ghost start = trip.start_time@;
        if legs.len() == 0 {
            return Err(OjpError::FailedToConvertToSimplifiedTrip);
        }
        let mut prev = trip.start_time;
        let mut out: Vec<SimplifiedLeg> = Vec::new();
        let mut i: usize = 0;
        while i < legs.len()
            invariant
                i <= legs@.len(),
                out@.len() == i,
                start == trip.start_time@,
                legs@ == trip.legs@,
                prev@ == carried_arrival(legs@, start, i as int),
                forall|k: int|
                    0 <= k < i ==> leg_simplifies(
                        #[trigger] legs@[k],
                        carried_arrival(legs@, start, k),
                    ) && leg_simplified(out@[k], legs@[k], carried_arrival(legs@, start, k)),
            decreases legs@.len() - i,
        {
            let leg = &legs[i];
            let simplified = match simplify_leg(leg, prev) {
                Ok(l) => l,
                Err(e) => {
                    proof {
                        lemma_fails_at(legs@, start, i as int, e);
                    }
                    return Err(e);
                },
            };
            let arrival_time = simplified.arrival_time;
            out.push(simplified);
            prev = arrival_time;
            i = i + 1;
        }
        Ok(SimplifiedTrip { legs: out })
    }
}

/// Whether `n / d` exceeds `num / den` (with `den > 0`), reading a division
/// by zero as an infinity of the numerator's sign, and `0 / 0` as exceeding
/// nothing.
pub open spec fn ratio_exceeds(n: int, d: int, num: int, den: int) -> bool {
    if d > 0 {
        n * den > num * d
    } else if d < 0 {
        n * den < num * d
    } else {
        n > 0
    }
}

/// Whether `n / d` is below `num / den` (with `den > 0`), reading a division
/// by zero as an infinity of the numerator's sign, and `0 / 0` as below
/// nothing.
pub open spec fn ratio_below(n: int, d: int, num: int, den: int) -> bool {
    if d > 0 {
        n * den < num * d
    } else if d < 0 {
        n * den > num * d
    } else {
        n < 0
    }
}

/// Seconds from the first departure to the last arrival.
pub open spec fn legs_duration(legs: Seq<SimplifiedLeg>) -> int {
    legs.last().arrival_time@ - legs[0].departure_time@
}

pub open spec fn abs(x: int) -> int {
    if x < 0 { -x } else { x }
}

/// Whether two trips join the same stops, take about as long, and leave and
/// arrive about together: their durations differ by no more than the
/// tolerance `num / den` of the second trip's duration, and the first trip
/// leaves and arrives later than the second by less than the tolerance of the
/// first trip's duration.
pub open spec fn approx_equal_legs(
    a: Seq<SimplifiedLeg>,
    b: Seq<SimplifiedLeg>,
    num: int,
    den: int,
) -> bool {
    &&& a[0].departure_id == b[0].departure_id
    &&& a.last().arrival_id == b.last().arrival_id
    &&& !ratio_exceeds(abs(legs_duration(a) - legs_duration(b)), legs_duration(b), num, den)
    &&& ratio_below(
        a[0].departure_time@ - b[0].departure_time@,
        legs_duration(a),
        num,
        den,
    )
    &&& ratio_below(
        a.last().arrival_time@ - b.last().arrival_time@,
        legs_duration(a),
        num,
        den,
    )
}

/// Bound on the differences of timestamps and durations that a comparison
/// meets: eight times `TIMESTAMP_LIMIT`.
const SPAN_BOUND: i64 = 8_796_093_022_208;

/// Decides `ratio_exceeds` in 128-bit arithmetic, where the products fit.
fn exceeds(n: i64, d: i64, num: u32, den: u32) -> (r: bool)
    requires
        -SPAN_BOUND <= n <= SPAN_BOUND,
        -SPAN_BOUND <= d <= SPAN_BOUND,
        den > 0,
    ensures
        r == ratio_exceeds(n as int, d as int, num as int, den as int),
{
    let wn = n as i128;
    let wd = d as i128;
    assert(-SPAN_BOUND * 4_294_967_296 <= wn * den <= SPAN_BOUND * 4_294_967_296)
        by (nonlinear_arith)
        requires
            -SPAN_BOUND <= wn <= SPAN_BOUND,
            0 < den <= 4_294_967_295,
    ;
    assert(-SPAN_BOUND * 4_294_967_296 <= num * wd <= SPAN_BOUND * 4_294_967_296)
        by (nonlinear_arith)
        requires
            -SPAN_BOUND <= wd <= SPAN_BOUND,
            0 <= num <= 4_294_967_295,
    ;
    if d > 0 {
        wn * (den as i128) > (num as i128) * wd
    } else if d < 0 {
        wn * (den as i128) < (num as i128) * wd
    } else {
        n > 0
    }
}

/// Decides `ratio_below` in 128-bit arithmetic, where the products fit.
fn below(n: i64, d: i64, num: u32, den: u32) -> (r: bool)
    requires
        -SPAN_BOUND <= n <= SPAN_BOUND,
        -SPAN_BOUND <= d <= SPAN_BOUND,
        den > 0,
    ensures
        r == ratio_below(n as int, d as int, num as int, den as int),
{
    let wn = n as i128;
    let wd = d as i128;
    assert(-SPAN_BOUND * 4_294_967_296 <= wn * den <= SPAN_BOUND * 4_294_967_296)
        by (nonlinear_arith)
        requires
            -SPAN_BOUND <= wn <= SPAN_BOUND,
            0 < den <= 4_294_967_295,
    ;
    assert(-SPAN_BOUND * 4_294_967_296 <= num * wd <= SPAN_BOUND * 4_294_967_296)
        by (nonlinear_arith)
        requires
            -SPAN_BOUND <= wd <= SPAN_BOUND,
            0 <= num <= 4_294_967_295,
    ;
    if d > 0 {
        wn * (den as i128) < (num as i128) * wd
    } else if d < 0 {
        wn * (den as i128) > (num as i128) * wd
    } else {
        n < 0
    }
}

impl SimplifiedTrip {
    /// The legs, in order.
    pub fn legs(&self) -> (r: Vec<&SimplifiedLeg>)
        ensures
            derefs(r@) == self@,
            r@.len() > 0,
    {
        proof {
            use_type_invariant(self);
        }
        refs_of(&self.legs)
    }

    /// Departure of the first leg.
    pub fn departure_time(&self) -> (r: Timestamp)
        ensures
            self@.len() > 0,
            r == self@[0].departure_time,
    {
        proof {
            use_type_invariant(self);
        }
        self.legs[0].departure_time
    }

    /// Arrival of the last leg.
    pub fn arrival_time(&self) -> (r: Timestamp)
        ensures
            self@.len() > 0,
            r == self@.last().arrival_time,
    {
        proof {
            use_type_invariant(self);
        }
        self.legs[self.legs.len() - 1].arrival_time
    }

    /// Seconds from the first departure to the last arrival.
    pub fn duration(&self) -> (r: i64)
        ensures
            self@.len() > 0,
            r == legs_duration(self@),
    {
        self.arrival_time().seconds_since(&self.departure_time())
    }

    /// Station code where the trip starts.
    pub fn departure_id(&self) -> (r: i32)
        ensures
            self@.len() > 0,
            r == self@[0].departure_id,
    {
        proof {
            use_type_invariant(self);
        }
        self.legs[0].departure_id
    }

    /// Station code where the trip ends.
    pub fn arrival_id(&self) -> (r: i32)
        ensures
            self@.len() > 0,
            r == self@.last().arrival_id,
    {
        proof {
            use_type_invariant(self);
        }
        self.legs[self.legs.len() - 1].arrival_id
    }

    /// Name of the stop where the trip starts.
    pub fn departure_stop(&self) -> (r: &str)
        ensures
            self@.len() > 0,
            r@ == self@[0].departure_stop@,
    {
        proof {
            use_type_invariant(self);
        }
        self.legs[0].departure_stop.as_str()
    }

    /// Name of the stop where the trip ends.
    pub fn arrival_stop(&self) -> (r: &str)
        ensures
            self@.len() > 0,
            r@ == self@.last().arrival_stop@,
    {
        proof {
            use_type_invariant(self);
        }
        self.legs[self.legs.len() - 1].arrival_stop.as_str()
    }

    /// Compares two trips within the tolerance `tolerance_num / tolerance_den`.
    pub fn approx_equal(&self, rhs: &SimplifiedTrip, tolerance_num: u32, tolerance_den: u32) -> (r:
        bool)
        requires
            tolerance_den > 0,
        ensures
            r == approx_equal_legs(self@, rhs@, tolerance_num as int, tolerance_den as int),
    {
        if self.departure_id() != rhs.departure_id() || self.arrival_id() != rhs.arrival_id() {
            return false;
        }
        let a_dep = self.departure_time().seconds();
        let a_arr = self.arrival_time().seconds();
        let b_dep = rhs.departure_time().seconds();
        let b_arr = rhs.arrival_time().seconds();
        let da = self.duration();
        let db = rhs.duration();
        let gap = if da >= db { da - db } else { db - da };
        if exceeds(gap, db, tolerance_num, tolerance_den) {
            return false;
        }
        if !below(a_dep - b_dep, da, tolerance_num, tolerance_den) || !below(
            a_arr - b_arr,
            da,
            tolerance_num,
            tolerance_den,
        ) {
            return false;
        }
        true
    }
}

impl Trip {
    /// The legs, in order.
    pub fn legs(&self) -> (r: Vec<&Leg>)
        ensures
            derefs(r@) == self.legs@,
    {
        refs_of(&self.legs)
    }

    /// Start, end and duration of the trip.
    pub fn trip_info(&self) -> (r: TripInfo)
        ensures
            r.departure_time == self.start_time,
            r.arrival_time == self.end_time,
            r.duration == self.duration,
    {
        TripInfo {
            departure_time: self.start_time,
            arrival_time: self.end_time,
            duration: self.duration,
        }
    }
}

/// `n` spaces.
pub open spec fn spaces(n: nat) -> Seq<char>
    decreases n,
{
    if n == 0 {
        Seq::empty()
    } else {
        spaces((n - 1) as nat).push(' ')
    }
}

/// `s` followed by spaces up to `width` characters, as `{:<width}` writes it.
pub open spec fn pad_right(s: Seq<char>, width: nat) -> Seq<char> {
    if s.len() >= width {
        s
    } else {
        s + spaces((width - s.len()) as nat)
    }
}

/// The line of one leg: mode, stops and clock times.
pub open spec fn leg_line(l: SimplifiedLeg) -> Seq<char> {
    "["@ + pad_right(l.mode@, 8) + "]: "@ + pad_right(l.departure_stop@, 40) + " -> "@ + pad_right(
        l.arrival_stop@,
        40,
    ) + ", "@ + clock_text(l.departure_time@) + " - "@ + clock_text(l.arrival_time@) + "\n"@
}

/// The lines of the legs, in order.
pub open spec fn leg_lines(legs: Seq<SimplifiedLeg>) -> Seq<char>
    decreases legs.len(),
{
    if legs.len() == 0 {
        Seq::empty()
    } else {
        leg_lines(legs.drop_last()) + leg_line(legs.last())
    }
}

/// A trip as text: a header with its ends and departure, then one line per leg.
pub open spec fn trip_text(legs: Seq<SimplifiedLeg>) -> Seq<char> {
    "Trip from: "@ + legs[0].departure_stop@ + " to: "@ + legs.last().arrival_stop@
        + " departing at: "@ + datetime_text(legs[0].departure_time@) + "\n"@ + leg_lines(legs)
}

fn append_padded(out: &mut String, s: &str, width: usize)
    ensures
        final(out)@ == old(out)@ + pad_right(s@, width as nat),
{
    out.append(s);
    let n = s.unicode_len();
    let mut k: usize = n;
    proof {
        reveal_strlit(" ");
        assert(spaces(0) =~= Seq::<char>::empty());
    }
    while k < width
        invariant
            n == s@.len(),
            n <= k <= width || (n > width && k == n),
            out@ == old(out)@ + s@ + spaces((k - n) as nat),
        decreases width - k,
    {
        out.append(" ");
        proof {
            reveal_strlit(" ");
        }
        k = k + 1;
        assert(spaces((k - n) as nat) == spaces((k - 1 - n) as nat).push(' '));
        assert(out@ =~= old(out)@ + s@ + spaces((k - n) as nat));
    }
    assert(old(out)@ + pad_right(s@, width as nat) =~= old(out)@ + s@ + spaces((k - n) as nat));
}

fn append_leg_line(out: &mut String, l: &SimplifiedLeg)
    ensures
        final(out)@ == old(out)@ + leg_line(*l),
{
    out.append("[");
    append_padded(out, l.mode.as_str(), 8);
    out.append("]: ");
    append_padded(out, l.departure_stop.as_str(), 40);
    out.append(" -> ");
    append_padded(out, l.arrival_stop.as_str(), 40);
    out.append(", ");
    let dep = format_clock(l.departure_time);
    out.append(dep.as_str());
    out.append(" - ");
    let arr = format_clock(l.arrival_time);
    out.append(arr.as_str());
    out.append("\n");
    assert(out@ =~= old(out)@ + leg_line(*l));
}

impl SimplifiedTrip {
    /// The trip as text: `Trip from: <origin> to: <destination> departing
    /// at: <time>`, then one line per leg.
    pub fn render(&self) -> (r: String)
        ensures
            r@ == trip_text(self@),
    {
        proof {
            use_type_invariant(self);
        }
        let mut out = String::new();
        out.append("Trip from: ");
        out.append(self.departure_stop());
        out.append(" to: ");
        out.append(self.arrival_stop());
        out.append(" departing at: ");
        let when = format_datetime(self.departure_time());
        out.append(when.as_str());
        out.append("\n");
        let ghost header = out@;
        let mut i: usize = 0;
        while i < self.legs.len()
            invariant
                i <= self.legs@.len(),
                out@ == header + leg_lines(self.legs@.take(i as int)),
            decreases self.legs@.len() - i,
        {
            append_leg_line(&mut out, &self.legs[i]);
            assert(self.legs@.take(i + 1).drop_last() =~= self.legs@.take(i as int));
            i = i + 1;
            assert(out@ =~= header + leg_lines(self.legs@.take(i as int)));
        }
        assert(self.legs@.take(i as int) =~= self.legs@);
        assert(out@ =~= trip_text(self@));
        out
    }
}

} // verus!
