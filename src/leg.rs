//! The three shapes of a leg, resolved to one kind with a uniform set of
//! accessors.
use vstd::prelude::*;
use crate::error::OjpError;
use crate::stop_id::{normalize_stop_ref, stop_ref_outcome};
use crate::time::Timestamp;
use crate::wire::{
    ContinuousLeg, Leg, LegAlight, LegBoard, LegEndpoint, Mode, TimedLeg, TransferLeg,
};

verus! {

impl LegEndpoint {
    /// Numeric station code of the endpoint.
    pub fn id(&self) -> (r: Result<i32, OjpError>)
        ensures
            stop_ref_outcome(self.stop_point_ref@, r),
    {
        normalize_stop_ref(self.stop_point_ref.as_str())
    }

    pub fn name(&self) -> (r: &str)
        ensures
            r@ == self.name@,
    {
        self.name.as_str()
    }
}

impl LegBoard {
    /// Numeric station code of the boarding stop.
    pub fn id(&self) -> (r: Result<i32, OjpError>)
        ensures
            stop_ref_outcome(self.stop_point_ref@, r),
    {
        normalize_stop_ref(self.stop_point_ref.as_str())
    }

    pub fn name(&self) -> (r: &str)
        ensures
            r@ == self.stop_point_name@,
    {
        self.stop_point_name.as_str()
    }
}

impl LegAlight {
    /// Numeric station code of the alighting stop.
    pub fn id(&self) -> (r: Result<i32, OjpError>)
        ensures
            stop_ref_outcome(self.stop_point_ref@, r),
    {
        normalize_stop_ref(self.stop_point_ref.as_str())
    }

    pub fn name(&self) -> (r: &str)
        ensures
            r@ == self.stop_point_name@,
    {
        self.stop_point_name.as_str()
    }
}

impl Mode {
    /// Display name of the mode.
    pub fn name(&self) -> (r: &str)
        ensures
            r@ == self.name@,
    {
        self.name.as_str()
    }
}

impl TimedLeg {
    /// Timetabled departure at the boarding stop.
    pub fn departure_time(&self) -> (r: Timestamp)
        ensures
            r == self.leg_board.service_departure.timetabled_time,
    {
        self.leg_board.service_departure.timetabled_time
    }

    /// Timetabled arrival at the alighting stop.
    pub fn arrival_time(&self) -> (r: Timestamp)
        ensures
            r == self.leg_alight.service_arrival.timetabled_time,
    {
        self.leg_alight.service_arrival.timetabled_time
    }

    pub fn departure_id(&self) -> (r: Result<i32, OjpError>)
        ensures
            stop_ref_outcome(self.leg_board.stop_point_ref@, r),
    {
        self.leg_board.id()
    }

    pub fn arrival_id(&self) -> (r: Result<i32, OjpError>)
        ensures
            stop_ref_outcome(self.leg_alight.stop_point_ref@, r),
    {
        self.leg_alight.id()
    }

    pub fn departure_stop(&self) -> (r: &str)
        ensures
            r@ == self.leg_board.stop_point_name@,
    {
        self.leg_board.name()
    }

    pub fn arrival_stop(&self) -> (r: &str)
        ensures
            r@ == self.leg_alight.stop_point_name@,
    {
        self.leg_alight.name()
    }
}

impl TransferLeg {
    pub fn departure_stop(&self) -> (r: &str)
        ensures
            r@ == self.leg_start.name@,
    {
        self.leg_start.name()
    }

    pub fn arrival_stop(&self) -> (r: &str)
        ensures
            r@ == self.leg_end.name@,
    {
        self.leg_end.name()
    }

    pub fn departure_id(&self) -> (r: Result<i32, OjpError>)
        ensures
            stop_ref_outcome(self.leg_start.stop_point_ref@, r),
    {
        self.leg_start.id()
    }

    pub fn arrival_id(&self) -> (r: Result<i32, OjpError>)
        ensures
            stop_ref_outcome(self.leg_end.stop_point_ref@, r),
    {
        self.leg_end.id()
    }
}

impl ContinuousLeg {
    pub fn departure_stop(&self) -> (r: &str)
        ensures
            r@ == self.leg_start.name@,
    {
        self.leg_start.name()
    }

    pub fn arrival_stop(&self) -> (r: &str)
        ensures
            r@ == self.leg_end.name@,
    {
        self.leg_end.name()
    }

    pub fn departure_id(&self) -> (r: Result<i32, OjpError>)
        ensures
            stop_ref_outcome(self.leg_start.stop_point_ref@, r),
    {
        self.leg_start.id()
    }

    pub fn arrival_id(&self) -> (r: Result<i32, OjpError>)
        ensures
            stop_ref_outcome(self.leg_end.stop_point_ref@, r),
    {
        self.leg_end.id()
    }
}

/// A leg resolved to exactly one of its kinds.
pub enum LegType<'a> {
    Timed(&'a TimedLeg),
    Transfer(&'a TransferLeg),
    Continuous(&'a ContinuousLeg),
}

/// The kind a leg resolves to: timed before transfer before continuous,
/// where more than one shape is present; none where no shape is.
pub open spec fn resolved<'a>(leg: &'a Leg) -> Option<LegType<'a>> {
    match leg.timed_leg {
        Some(t) => Some(LegType::Timed(&t)),
        None => match leg.transfer_leg {
            Some(t) => Some(LegType::Transfer(&t)),
            None => match leg.continuous_leg {
                Some(c) => Some(LegType::Continuous(&c)),
                None => None,
            },
        },
    }
}

impl<'a> LegType<'a> {
    /// Seconds that the leg takes: from board to alight for a timed leg, its
    /// own duration otherwise.
    pub open spec fn spec_duration(self) -> int {
        match self {
            LegType::Timed(t) => t.leg_alight.service_arrival.timetabled_time@
                - t.leg_board.service_departure.timetabled_time@,
            LegType::Transfer(t) => t.duration as int,
            LegType::Continuous(c) => c.duration as int,
        }
    }

    pub open spec fn spec_departure_time(self) -> Option<Timestamp> {
        match self {
            LegType::Timed(t) => Some(t.leg_board.service_departure.timetabled_time),
            _ => None,
        }
    }

    pub open spec fn spec_arrival_time(self) -> Option<Timestamp> {
        match self {
            LegType::Timed(t) => Some(t.leg_alight.service_arrival.timetabled_time),
            _ => None,
        }
    }

    pub open spec fn spec_departure_stop(self) -> Seq<char> {
        match self {
            LegType::Timed(t) => t.leg_board.stop_point_name@,
            LegType::Transfer(t) => t.leg_start.name@,
            LegType::Continuous(c) => c.leg_start.name@,
        }
    }

    pub open spec fn spec_arrival_stop(self) -> Seq<char> {
        match self {
            LegType::Timed(t) => t.leg_alight.stop_point_name@,
            LegType::Transfer(t) => t.leg_end.name@,
            LegType::Continuous(c) => c.leg_end.name@,
        }
    }

    /// The reference of the stop where the leg starts.
    pub open spec fn spec_departure_ref(self) -> Seq<char> {
        match self {
            LegType::Timed(t) => t.leg_board.stop_point_ref@,
            LegType::Transfer(t) => t.leg_start.stop_point_ref@,
            LegType::Continuous(c) => c.leg_start.stop_point_ref@,
        }
    }

    /// The reference of the stop where the leg ends.
    pub open spec fn spec_arrival_ref(self) -> Seq<char> {
        match self {
            LegType::Timed(t) => t.leg_alight.stop_point_ref@,
            LegType::Transfer(t) => t.leg_end.stop_point_ref@,
            LegType::Continuous(c) => c.leg_end.stop_point_ref@,
        }
    }

    pub open spec fn spec_mode(self) -> Seq<char> {
        match self {
            LegType::Timed(t) => t.service.mode.name@,
            LegType::Transfer(t) => t.transfer_type@,
            LegType::Continuous(c) => c.service.personal_mode@,
        }
    }

    /// Resolves a leg to its kind.
    pub fn from_leg(leg: &'a Leg) -> (r: Result<LegType<'a>, OjpError>)
        ensures
            match resolved(leg) {
                Some(v) => r == Ok::<LegType<'a>, OjpError>(v),
                None => r == Err::<LegType<'a>, OjpError>(OjpError::UnkownLegType),
            },
    {
        if let Some(t) = leg.timed_leg.as_ref() {
            Ok(LegType::Timed(t))
        } else if let Some(t) = leg.transfer_leg.as_ref() {
            Ok(LegType::Transfer(t))
        } else if let Some(c) = leg.continuous_leg.as_ref() {
            Ok(LegType::Continuous(c))
        } else {
            Err(OjpError::UnkownLegType)
        }
    }

    pub fn duration(&self) -> (r: i64)
        ensures
            r == self.spec_duration(),
    {
        match *self {
            LegType::Timed(t) => t.arrival_time().seconds_since(&t.departure_time()),
            LegType::Transfer(t) => t.duration,
            LegType::Continuous(c) => c.duration,
        }
    }

    /// Timetabled departure; none for untimed legs.
    pub fn departure_time(&self) -> (r: Option<Timestamp>)
        ensures
            r == self.spec_departure_time(),
    {
        match *self {
            LegType::Timed(t) => Some(t.departure_time()),
            LegType::Transfer(_) => None,
            LegType::Continuous(_) => None,
        }
    }

    /// Timetabled arrival; none for untimed legs.
    pub fn arrival_time(&self) -> (r: Option<Timestamp>)
        ensures
            r == self.spec_arrival_time(),
    {
        match *self {
            LegType::Timed(t) => Some(t.arrival_time()),
            LegType::Transfer(_) => None,
            LegType::Continuous(_) => None,
        }
    }

    pub fn departure_stop(&self) -> (r: &'a str)
        ensures
            r@ == self.spec_departure_stop(),
    {
        match *self {
            LegType::Timed(t) => t.departure_stop(),
            LegType::Transfer(t) => t.departure_stop(),
            LegType::Continuous(c) => c.departure_stop(),
        }
    }

    pub fn arrival_stop(&self) -> (r: &'a str)
        ensures
            r@ == self.spec_arrival_stop(),
    {
        match *self {
            LegType::Timed(t) => t.arrival_stop(),
            LegType::Transfer(t) => t.arrival_stop(),
            LegType::Continuous(c) => c.arrival_stop(),
        }
    }

    pub fn departure_id(&self) -> (r: Result<i32, OjpError>)
        ensures
            stop_ref_outcome(self.spec_departure_ref(), r),
    {
        match *self {
            LegType::Timed(t) => t.departure_id(),
            LegType::Transfer(t) => t.departure_id(),
            LegType::Continuous(c) => c.departure_id(),
        }
    }

    pub fn arrival_id(&self) -> (r: Result<i32, OjpError>)
        ensures
            stop_ref_outcome(self.spec_arrival_ref(), r),
    {
        match *self {
            LegType::Timed(t) => t.arrival_id(),
            LegType::Transfer(t) => t.arrival_id(),
            LegType::Continuous(c) => c.arrival_id(),
        }
    }

    /// Mode label: the service's mode name, the transfer kind, or the
    /// personal mode.
    pub fn mode(&self) -> (r: &'a str)
        ensures
            r@ == self.spec_mode(),
    {
        match *self {
            LegType::Timed(t) => t.service.mode.name(),
            LegType::Transfer(t) => t.transfer_type.as_str(),
            LegType::Continuous(c) => c.service.personal_mode.as_str(),
        }
    }
}

/// A leg with none of the three shapes does not resolve; a leg with exactly
/// one resolves to that shape, and its accessors read that shape's fields.
pub proof fn lemma_single_shape_resolves(leg: &Leg)
    ensures
        leg.timed_leg is None && leg.transfer_leg is None && leg.continuous_leg is None
            ==> resolved(leg) is None,
        leg.timed_leg is Some && leg.transfer_leg is None && leg.continuous_leg is None ==> (
        resolved(leg) matches Some(LegType::Timed(x)) && *x == leg.timed_leg->0),
        leg.transfer_leg is Some && leg.timed_leg is None && leg.continuous_leg is None ==> (
        resolved(leg) matches Some(LegType::Transfer(x)) && *x == leg.transfer_leg->0),
        leg.continuous_leg is Some && leg.timed_leg is None && leg.transfer_leg is None ==> (
        resolved(leg) matches Some(LegType::Continuous(x)) && *x == leg.continuous_leg->0),
{
}

} // verus!
