use ojp_reader::wire::{
    ContinuousLeg, ContinuousService, Leg, LegAlight, LegBoard, LegEndpoint, Mode, Service,
    ServiceTime, TimedLeg, TransferLeg, Trip,
};
use ojp_reader::{LegType, OjpError, SimplifiedLeg, SimplifiedTrip, Timestamp};

const TEN: i64 = 1_763_546_400; // 2025-11-19T10:00:00

fn at(minutes_after_ten: i64) -> Timestamp {
    Timestamp::from_seconds(TEN + 60 * minutes_after_ten).unwrap()
}

fn timed(from: &str, to: &str, dep: i64, arr: i64, mode: &str) -> TimedLeg {
    TimedLeg {
        leg_board: LegBoard {
            stop_point_ref: from.to_string(),
            stop_point_name: format!("stop {from}"),
            service_departure: ServiceTime { timetabled_time: at(dep), estimated_time: None },
        },
        leg_alight: LegAlight {
            stop_point_ref: to.to_string(),
            stop_point_name: format!("stop {to}"),
            service_arrival: ServiceTime { timetabled_time: at(arr), estimated_time: None },
        },
        service: Service { mode: Mode { pt_mode: "rail".to_string(), name: mode.to_string() } },
    }
}

fn endpoint(r: &str) -> LegEndpoint {
    LegEndpoint { stop_point_ref: r.to_string(), name: format!("stop {r}") }
}

fn transfer(from: &str, to: &str, seconds: i64) -> TransferLeg {
    TransferLeg {
        transfer_type: "walk".to_string(),
        leg_start: endpoint(from),
        leg_end: endpoint(to),
        duration: seconds,
    }
}

fn continuous(from: &str, to: &str, seconds: i64) -> ContinuousLeg {
    ContinuousLeg {
        leg_start: endpoint(from),
        leg_end: endpoint(to),
        service: ContinuousService { personal_mode: "bicycle".to_string() },
        duration: seconds,
    }
}

fn leg_timed(l: TimedLeg) -> Leg {
    Leg { timed_leg: Some(l), transfer_leg: None, continuous_leg: None }
}

fn leg_transfer(l: TransferLeg) -> Leg {
    Leg { timed_leg: None, transfer_leg: Some(l), continuous_leg: None }
}

fn leg_continuous(l: ContinuousLeg) -> Leg {
    Leg { timed_leg: None, transfer_leg: None, continuous_leg: Some(l) }
}

fn trip(start: i64, legs: Vec<Leg>) -> Trip {
    Trip { duration: 3600, start_time: at(start), end_time: at(start + 60), transfers: 1, legs }
}

fn three_leg_trip() -> Trip {
    trip(
        0,
        vec![
            leg_timed(timed("8503000", "8503001", 0, 20, "IC")),
            leg_transfer(transfer("8503001", "ch:1:sloid:3002", 300)),
            leg_timed(timed("8503002", "8503003", 30, 60, "S")),
        ],
    )
}

#[test]
fn transfer_carries_previous_arrival() {
    let st = SimplifiedTrip::from_trip(&three_leg_trip()).unwrap();
    let legs = st.legs();
    assert_eq!(legs.len(), 3);
    assert_eq!(legs[0].departure_time, at(0));
    assert_eq!(legs[0].arrival_time, at(20));
    assert_eq!(legs[1].departure_time, at(20));
    assert_eq!(legs[1].arrival_time, at(25));
    assert_eq!(legs[2].departure_time, at(30));
    assert_eq!(legs[2].arrival_time, at(60));
    assert_eq!(legs[1].arrival_id, 8503002);
    assert_eq!(legs[1].mode, "walk");
    assert_eq!(legs[2].mode, "S");
    assert_eq!(legs[0].departure_stop, "stop 8503000");
}

#[test]
fn trip_endpoints_and_duration() {
    let st = SimplifiedTrip::from_trip(&three_leg_trip()).unwrap();
    assert_eq!(st.departure_id(), 8503000);
    assert_eq!(st.arrival_id(), 8503003);
    assert_eq!(st.departure_stop(), "stop 8503000");
    assert_eq!(st.arrival_stop(), "stop 8503003");
    assert_eq!(st.departure_time(), at(0));
    assert_eq!(st.arrival_time(), at(60));
    assert_eq!(st.duration(), 3600);
}

#[test]
fn first_untimed_leg_starts_at_trip_start() {
    let t = trip(5, vec![leg_continuous(continuous("8500001", "8500002", 600))]);
    let st = SimplifiedTrip::from_trip(&t).unwrap();
    assert_eq!(st.departure_time(), at(5));
    assert_eq!(st.arrival_time(), at(15));
    assert_eq!(st.legs()[0].mode, "bicycle");
}

#[test]
fn leg_without_shape_fails() {
    let t = trip(
        0,
        vec![
            leg_timed(timed("8503000", "8503001", 0, 20, "IC")),
            Leg { timed_leg: None, transfer_leg: None, continuous_leg: None },
        ],
    );
    assert_eq!(SimplifiedTrip::from_trip(&t).unwrap_err(), OjpError::UnkownLegType);
}

#[test]
fn first_bad_stop_reference_is_reported() {
    let t = trip(
        0,
        vec![
            leg_transfer(transfer("8503000", "a:b", 60)),
            leg_transfer(transfer("xx:1:2:3", "8503000", 60)),
        ],
    );
    assert_eq!(
        SimplifiedTrip::from_trip(&t).unwrap_err(),
        OjpError::MalformedSloid("a:b".to_string())
    );
}

#[test]
fn empty_trip_fails() {
    let t = trip(0, vec![]);
    assert_eq!(
        SimplifiedTrip::from_trip(&t).unwrap_err(),
        OjpError::FailedToConvertToSimplifiedTrip
    );
}

#[test]
fn carried_time_out_of_range_fails() {
    let t = trip(0, vec![leg_transfer(transfer("8503000", "8503001", i64::MAX))]);
    assert_eq!(
        SimplifiedTrip::from_trip(&t).unwrap_err(),
        OjpError::FailedToConvertToSimplifiedTrip
    );
}

#[test]
fn resolve_without_shape() {
    let leg = Leg { timed_leg: None, transfer_leg: None, continuous_leg: None };
    assert!(matches!(LegType::from_leg(&leg), Err(OjpError::UnkownLegType)));
}

#[test]
fn resolve_single_shapes() {
    let leg = leg_timed(timed("8503000", "ch:1:sloid:1", 0, 20, "IC"));
    let v = LegType::from_leg(&leg).unwrap();
    assert!(matches!(v, LegType::Timed(_)));
    assert_eq!(v.duration(), 1200);
    assert_eq!(v.departure_time(), Some(at(0)));
    assert_eq!(v.arrival_time(), Some(at(20)));
    assert_eq!(v.departure_id(), Ok(8503000));
    assert_eq!(v.arrival_id(), Ok(8500001));
    assert_eq!(v.departure_stop(), "stop 8503000");
    assert_eq!(v.arrival_stop(), "stop ch:1:sloid:1");
    assert_eq!(v.mode(), "IC");

    let leg = leg_transfer(transfer("8503001", "8503002", 300));
    let v = LegType::from_leg(&leg).unwrap();
    assert!(matches!(v, LegType::Transfer(_)));
    assert_eq!(v.duration(), 300);
    assert_eq!(v.departure_time(), None);
    assert_eq!(v.arrival_time(), None);
    assert_eq!(v.mode(), "walk");
    assert_eq!(v.arrival_id(), Ok(8503002));

    let leg = leg_continuous(continuous("8503001", "8503002", 420));
    let v = LegType::from_leg(&leg).unwrap();
    assert!(matches!(v, LegType::Continuous(_)));
    assert_eq!(v.duration(), 420);
    assert_eq!(v.departure_time(), None);
    assert_eq!(v.mode(), "bicycle");
    assert_eq!(v.departure_stop(), "stop 8503001");
}

#[test]
fn resolve_prefers_timed_then_transfer() {
    let leg = Leg {
        timed_leg: Some(timed("8503000", "8503001", 0, 20, "IC")),
        transfer_leg: Some(transfer("8503001", "8503002", 300)),
        continuous_leg: Some(continuous("8503001", "8503002", 420)),
    };
    assert!(matches!(LegType::from_leg(&leg).unwrap(), LegType::Timed(_)));
    let leg = Leg {
        timed_leg: None,
        transfer_leg: Some(transfer("8503001", "8503002", 300)),
        continuous_leg: Some(continuous("8503001", "8503002", 420)),
    };
    assert!(matches!(LegType::from_leg(&leg).unwrap(), LegType::Transfer(_)));
}

fn one_leg_trip(dep_id: i32, arr_id: i32, dep: i64, seconds: i64) -> SimplifiedTrip {
    let start = Timestamp::from_seconds(TEN + dep).unwrap();
    let end = Timestamp::from_seconds(TEN + dep + seconds).unwrap();
    SimplifiedTrip::new(vec![SimplifiedLeg::new(
        dep_id, "A", arr_id, "B", start, end, "IC".to_string(),
    )])
}

#[test]
fn approx_equal_within_tolerance() {
    let a = one_leg_trip(8503000, 8507000, 0, 3650);
    let b = one_leg_trip(8503000, 8507000, 0, 3600);
    assert!(a.approx_equal(&b, 2, 100));
    assert!(!a.approx_equal(&b, 1, 100));
}

#[test]
fn approx_equal_needs_same_endpoints() {
    let a = one_leg_trip(8503000, 8507000, 0, 3600);
    let b = one_leg_trip(8503000, 8507001, 0, 3600);
    assert!(!a.approx_equal(&b, 1, 2));
}

#[test]
fn approx_equal_compares_times() {
    let a = one_leg_trip(8503000, 8507000, 600, 3600);
    let b = one_leg_trip(8503000, 8507000, 0, 3600);
    assert!(!a.approx_equal(&b, 1, 10));
    assert!(a.approx_equal(&b, 1, 5));
    // An earlier departure is never too far off.
    assert!(b.approx_equal(&a, 1, 10));
}

#[test]
fn approx_equal_offsets_must_be_below_tolerance() {
    let a = one_leg_trip(8503000, 8507000, 1, 100);
    let b = one_leg_trip(8503000, 8507000, 0, 100);
    assert!(!a.approx_equal(&b, 1, 100));
    assert!(a.approx_equal(&b, 2, 100));
}

#[test]
fn approx_equal_duration_may_reach_tolerance() {
    let a = one_leg_trip(8503000, 8507000, 0, 101);
    let b = one_leg_trip(8503000, 8507000, 0, 100);
    // Duration off by exactly 1/100 of b's; arrival 1 s later, below 1/100 of 101 s.
    assert!(a.approx_equal(&b, 1, 100));
    // Same arrival, departure 2 s earlier: only the duration test can fail.
    let c = one_leg_trip(8503000, 8507000, -2, 102);
    assert!(!c.approx_equal(&b, 1, 100));
    assert!(c.approx_equal(&b, 2, 100));
}

#[test]
fn cloned_trip_keeps_legs() {
    let t = SimplifiedTrip::from_trip(&three_leg_trip()).unwrap();
    let c = t.clone();
    assert_eq!(c.render(), t.render());
    assert_eq!(c.legs()[1].arrival_time, at(25));
}

#[test]
fn render_pads_columns() {
    let t = one_leg_trip(8503000, 8507000, 0, 3600);
    let expected = format!(
        "Trip from: A to: B departing at: 2025-11-19 10:00:00\n[{:<8}]: {:<40} -> {:<40}, 10:00 - 11:00\n",
        "IC", "A", "B"
    );
    assert_eq!(t.render(), expected);
}

#[test]
fn render_keeps_long_names() {
    let start = Timestamp::from_seconds(TEN + 5 * 60).unwrap();
    let end = Timestamp::from_seconds(TEN + 14 * 3600 + 7 * 60).unwrap();
    let long = "x".repeat(45);
    let t = SimplifiedTrip::new(vec![SimplifiedLeg::new(
        1, &long, 2, "B", start, end, "Intercity".to_string(),
    )]);
    let expected = format!(
        "Trip from: {long} to: B departing at: 2025-11-19 10:05:00\n[Intercity]: {long} -> {:<40}, 10:05 - 00:07\n",
        "B"
    );
    assert_eq!(t.render(), expected);
}
