use ojp_reader::wire::{
    ErrorCondition, LocationInformationDelivery, Place, PlaceResult, ServiceDelivery, StopPlace,
    Trip, TripDelivery, TripResult,
};
use ojp_reader::search::merge_stop_ids;
use ojp_reader::{OjpError, Timestamp, OJP};

fn ts(s: i64) -> Timestamp {
    Timestamp::from_seconds(s).unwrap()
}

fn result(id: &str, start: i64) -> TripResult {
    TripResult {
        id: id.to_string(),
        trip: Trip { duration: 60, start_time: ts(start), end_time: ts(start + 60), transfers: 0, legs: vec![] },
    }
}

fn with_trips(trips: Vec<TripResult>, error: Option<&str>) -> OJP {
    OJP {
        service_delivery: ServiceDelivery {
            ojp_trip_delivery: Some(TripDelivery {
                trip_results: trips,
                error_condition: error.map(|e| ErrorCondition { trip_problem_type: e.to_string() }),
            }),
            ojp_location_information_delivery: None,
        },
    }
}

fn empty() -> OJP {
    OJP {
        service_delivery: ServiceDelivery {
            ojp_trip_delivery: None,
            ojp_location_information_delivery: None,
        },
    }
}

#[test]
fn departing_after_keeps_order() {
    let ojp = with_trips(
        vec![result("a", 100), result("b", 50), result("c", 300), result("d", 200)],
        None,
    );
    let after = ojp.trips_departing_after(ts(100)).unwrap();
    let ids: Vec<&str> = after.iter().map(|r| r.id.as_str()).collect();
    assert_eq!(ids, vec!["a", "c", "d"]);
    assert_eq!(ojp.trip_departing_after(ts(100), 1).unwrap().start_time, ts(300));
    assert!(ojp.trip_departing_after(ts(100), 3).is_none());
}

#[test]
fn departing_after_absent_when_all_earlier() {
    let ojp = with_trips(vec![result("a", 100), result("b", 50)], None);
    assert!(ojp.trips_departing_after(ts(101)).is_none());
    assert!(ojp.trip_departing_after(ts(101), 0).is_none());
}

#[test]
fn departing_after_absent_without_delivery() {
    assert!(empty().trips_departing_after(ts(0)).is_none());
    assert!(empty().trips().is_none());
    assert!(empty().trip(0).is_none());
    assert!(empty().error().is_none());
    assert!(empty().place_results().is_none());
}

#[test]
fn all_trips_and_indexing() {
    let ojp = with_trips(vec![result("a", 100), result("b", 50)], None);
    assert_eq!(ojp.trips().unwrap().len(), 2);
    assert_eq!(ojp.trip(1).unwrap().start_time, ts(50));
    assert!(ojp.trip(2).is_none());
    assert!(ojp.error().is_none());
}

#[test]
fn server_error_message() {
    let ojp = with_trips(vec![], Some("TRIP_NOTRIPFOUND"));
    assert_eq!(ojp.error(), Some("TRIP_NOTRIPFOUND"));
    assert_eq!(ojp.trips().unwrap().len(), 0);
}

#[test]
fn place_results_in_order() {
    let ojp = OJP {
        service_delivery: ServiceDelivery {
            ojp_trip_delivery: None,
            ojp_location_information_delivery: Some(LocationInformationDelivery {
                place_results: vec![
                    PlaceResult {
                        place: Place {
                            stop_place: Some(StopPlace { stop_place_ref: 8507000, stop_place_name: "Bern".to_string() }),
                            name: "Bern".to_string(),
                        },
                    },
                    PlaceResult { place: Place { stop_place: None, name: "Bern (city)".to_string() } },
                ],
            }),
        },
    };
    let places = ojp.place_results().unwrap();
    assert_eq!(places.len(), 2);
    assert_eq!(places[1].place.name, "Bern (city)");
}

#[test]
fn stop_place_ids_skip_other_places() {
    let ojp = OJP {
        service_delivery: ServiceDelivery {
            ojp_trip_delivery: None,
            ojp_location_information_delivery: Some(LocationInformationDelivery {
                place_results: vec![
                    PlaceResult { place: Place { stop_place: None, name: "Zurich".to_string() } },
                    PlaceResult {
                        place: Place {
                            stop_place: Some(StopPlace { stop_place_ref: 8503000, stop_place_name: "Zurich HB".to_string() }),
                            name: "Zurich HB".to_string(),
                        },
                    },
                ],
            }),
        },
    };
    assert_eq!(ojp.stop_place_ids(), Ok(vec![8503000]));
    let places = ojp.place_results().unwrap();
    assert_eq!(places[0].stop_place_ref(), None);
    assert_eq!(places[1].stop_place_ref(), Some(8503000));
    assert_eq!(places[1].stop_place_name(), Some("Zurich HB"));
    assert_eq!(empty().stop_place_ids(), Err(OjpError::PlaceResultsNotFound));
}

#[test]
fn select_trip_reports_server_problem() {
    let ojp = with_trips(vec![result("a", 100)], Some("TRIP_NOTRIPFOUND"));
    assert_eq!(
        ojp.select_trip(1, 2, ts(0)).unwrap_err(),
        OjpError::FailedToFindTrip { dep_id: 1, arr_id: 2, msg: "TRIP_NOTRIPFOUND".to_string() }
    );
}

#[test]
fn select_trip_without_later_trip() {
    let ojp = with_trips(vec![result("a", 1_763_546_400)], None);
    assert_eq!(
        ojp.select_trip(1, 2, ts(1_763_546_401)).unwrap_err(),
        OjpError::FailedToFindTrip {
            dep_id: 1,
            arr_id: 2,
            msg: "No trip departing after 2025-11-19 10:00:01 was found.".to_string()
        }
    );
}

#[test]
fn select_trip_simplifies_first_later_trip() {
    // The first later trip has no legs, so it cannot be simplified.
    let ojp = with_trips(vec![result("a", 50), result("b", 100)], None);
    assert_eq!(
        ojp.select_trip(1, 2, ts(60)).unwrap_err(),
        OjpError::FailedToConvertToSimplifiedTrip
    );
}

#[test]
fn merge_stop_ids_in_order() {
    assert_eq!(merge_stop_ids(vec![Ok(vec![1, 2]), Ok(vec![]), Ok(vec![3])]), Ok(vec![1, 2, 3]));
    assert_eq!(
        merge_stop_ids(vec![Ok(vec![1]), Err(OjpError::PlaceResultsNotFound), Err(OjpError::UnkownLegType)]),
        Err(OjpError::PlaceResultsNotFound)
    );
    assert_eq!(merge_stop_ids(vec![]), Ok(vec![]));
}
