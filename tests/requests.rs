use ojp_reader::{RequestBuilder, RequestError, RequestType, Timestamp};

const TEN: i64 = 1_763_546_400; // 2025-11-19T10:00:00

fn builder() -> RequestBuilder {
    RequestBuilder::with_utc_offset(Timestamp::from_seconds(TEN).unwrap(), 3600)
}

#[test]
fn offset_moves_time_to_utc() {
    assert_eq!(builder().date_time, TEN - 3600);
    let b = RequestBuilder::new(Timestamp::from_seconds(TEN).unwrap());
    assert!((TEN - b.date_time).abs() < 86400);
    assert_eq!(b.request_type, RequestType::Unknown);
}

#[test]
fn unknown_request_type() {
    assert_eq!(builder().try_request_body(), Err(RequestError::UnknownRequestType));
    assert_eq!(RequestType::Unknown.element_name(), Err(RequestError::UnknownRequestType));
    assert_eq!(RequestType::Trip.element_name(), Ok("OJPTripRequest".to_string()));
}

#[test]
fn stop_event_not_implemented() {
    let b = builder().set_request_type(RequestType::StopEvent).set_number_results(3);
    assert_eq!(b.try_request_body(), Err(RequestError::EventsRequestTypeNotImplemented));
}

#[test]
fn zero_results_refused() {
    let b = builder().set_request_type(RequestType::Trip).set_from(1).set_to(2);
    assert_eq!(b.try_request_body(), Err(RequestError::InvalidNumberResults(0)));
    let b = builder().set_request_type(RequestType::LocationInformation).set_name("bern");
    assert_eq!(b.try_request_body(), Err(RequestError::InvalidNumberResults(0)));
}

#[test]
fn missing_location_name() {
    let b = builder().set_request_type(RequestType::LocationInformation).set_number_results(3);
    assert_eq!(b.try_request_body(), Err(RequestError::MissingLocationName));
}

#[test]
fn missing_trip_ends() {
    let b = builder().set_request_type(RequestType::Trip).set_number_results(3);
    assert_eq!(b.try_request_body(), Err(RequestError::MissingFromAndToId));
    let b = builder().set_request_type(RequestType::Trip).set_number_results(3).set_from(1);
    assert_eq!(b.try_request_body(), Err(RequestError::MissingToId));
    let b = builder().set_request_type(RequestType::Trip).set_number_results(3).set_to(1);
    assert_eq!(b.try_request_body(), Err(RequestError::MissingFromId));
}

#[test]
fn location_body_text() {
    let b = builder()
        .set_request_type(RequestType::LocationInformation)
        .set_number_results(3)
        .set_name("bern s")
        .set_requestor_ref("Test");
    let body = b.try_request_body_at("NOW").unwrap();
    assert!(body.starts_with("<?xml version=\"1.0\" encoding=\"UTF-8\"?>\n<OJP "));
    assert!(body.contains("<siri:RequestTimestamp>NOW</siri:RequestTimestamp>"));
    assert!(body.contains("<siri:RequestorRef>Test</siri:RequestorRef>"));
    assert!(body.contains("<Name>bern s</Name>"));
    assert!(body.contains("<NumberOfResults>3</NumberOfResults>"));
    assert!(body.ends_with("</OJP>"));
}

#[test]
fn trip_body_text() {
    let b = builder()
        .set_request_type(RequestType::Trip)
        .set_number_results(12)
        .set_from(8503308)
        .set_to(-8503424)
        .set_requestor_ref("Test");
    let body = b.try_request_body_at("NOW").unwrap();
    assert!(body.contains("<siri:StopPointRef>8503308</siri:StopPointRef>"));
    assert!(body.contains("<siri:StopPointRef>-8503424</siri:StopPointRef>"));
    assert!(body.contains("<DepArrTime>2025-11-19T09:00:00.000Z</DepArrTime>"));
    assert!(body.contains("<NumberOfResults>12</NumberOfResults>"));
    assert!(body.contains("<OJPTripRequest>"));
}

#[test]
fn token_checked_after_body() {
    let b = builder().set_request_type(RequestType::Trip).set_number_results(3);
    assert_eq!(b.authorized_body(), Err(RequestError::MissingFromAndToId));
    let b = b.set_from(1).set_to(2);
    assert_eq!(b.authorized_body(), Err(RequestError::MissingAuthToken));
    let (token, body) = b.set_token("SECRET").authorized_body().unwrap();
    assert_eq!(token, "SECRET");
    assert!(body.contains("<siri:StopPointRef>2</siri:StopPointRef>"));
}

#[test]
fn timestamps_round_up_to_whole_seconds() {
    assert_eq!(Timestamp::ceil_from(TEN, 0).unwrap().seconds(), TEN);
    assert_eq!(Timestamp::ceil_from(TEN, 643_000_000).unwrap().seconds(), TEN + 1);
    assert_eq!(Timestamp::ceil_from(-5, 1).unwrap().seconds(), -4);
    assert!(Timestamp::ceil_from(ojp_reader::time::TIMESTAMP_LIMIT, 1).is_none());
    assert!(Timestamp::from_seconds(-ojp_reader::time::TIMESTAMP_LIMIT - 1).is_none());
}
