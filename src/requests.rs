//! Requests to the journey planner: what a request needs before it can be
//! sent, and the XML body that carries it.
use vstd::prelude::*;
use crate::error::RequestError;
use crate::number::{append_decimal, decimal_text};
use crate::time::{Timestamp, TIMESTAMP_LIMIT};

verus! {

/// Where the journey planner takes requests.
pub const URL: &'static str = "https://api.opentransportdata.swiss/ojp20";

pub const HEAD: &'static str = "<?xml version=\"1.0\" encoding=\"UTF-8\"?>\n<OJP xmlns=\"http://www.vdv.de/ojp\" xmlns:siri=\"http://www.siri.org.uk/siri\" version=\"2.0\">\n  <OJPRequest>\n    <siri:ServiceRequest>\n      <siri:RequestTimestamp>";

pub const REQUESTOR: &'static str = "</siri:RequestTimestamp>\n      <siri:RequestorRef>";

pub const LOCATION_OPEN: &'static str = "</siri:RequestorRef>\n      <OJPLocationInformationRequest>\n        <siri:RequestTimestamp>";

pub const LOCATION_NAME: &'static str = "</siri:RequestTimestamp>\n        <siri:MessageIdentifier>LIR-1a</siri:MessageIdentifier>\n        <InitialInput>\n          <Name>";

pub const LOCATION_COUNT: &'static str = "</Name>\n        </InitialInput>\n        <Restrictions>\n          <Type>stop</Type>\n          <NumberOfResults>";

pub const LOCATION_CLOSE: &'static str = "</NumberOfResults>\n        </Restrictions>\n      </OJPLocationInformationRequest>\n    </siri:ServiceRequest>\n  </OJPRequest>\n</OJP>";

pub const TRIP_OPEN: &'static str = "</siri:RequestorRef>\n      <OJPTripRequest>\n        <siri:RequestTimestamp>";

pub const TRIP_ORIGIN: &'static str = "</siri:RequestTimestamp>\n        <siri:MessageIdentifier>TR-1r1</siri:MessageIdentifier>\n        <Origin>\n          <PlaceRef>\n            <siri:StopPointRef>";

pub const TRIP_TIME: &'static str = "</siri:StopPointRef>\n          </PlaceRef>\n          <DepArrTime>";

pub const TRIP_DESTINATION: &'static str = "</DepArrTime>\n        </Origin>\n        <Destination>\n          <PlaceRef>\n            <siri:StopPointRef>";

pub const TRIP_COUNT: &'static str = "</siri:StopPointRef>\n          </PlaceRef>\n        </Destination>\n        <Params>\n          <NumberOfResults>";

pub const TRIP_CLOSE: &'static str = "</NumberOfResults>\n        </Params>\n      </OJPTripRequest>\n    </siri:ServiceRequest>\n  </OJPRequest>\n</OJP>";

/// Largest magnitude of a request time, in seconds from the epoch (UTC).
pub const REQUEST_TIME_LIMIT: i64 = 1_099_511_714_176;

/// What chrono's `to_rfc3339_opts(SecondsFormat::Millis, true)` gives for the
/// UTC time `seconds` after the epoch (`2025-11-19T19:56:28.000Z`).
pub uninterp spec fn rfc3339_text(seconds: int) -> Seq<char>;

/// Relies on chrono's `DateTime::from_timestamp`, which gives a time for
/// every value within `REQUEST_TIME_LIMIT`, and `to_rfc3339_opts`: the text
/// of that time, with milliseconds and `Z`.
#[verifier::external_body]
fn format_rfc3339(seconds: i64) -> (r: String)
    requires
        -REQUEST_TIME_LIMIT <= seconds <= REQUEST_TIME_LIMIT,
    ensures
        r@ == rfc3339_text(seconds as int),
{
    match chrono::DateTime::from_timestamp(seconds, 0) {
        Some(dt) => dt.to_rfc3339_opts(chrono::SecondsFormat::Millis, true),
        None => String::new(),
    }
}

/// Relies on chrono's `Utc::now` and `to_rfc3339_opts`: the current time as
/// text; nothing is known of its value.
#[verifier::external_body]
fn now_rfc3339() -> (r: String) {
    chrono::Utc::now().to_rfc3339_opts(chrono::SecondsFormat::Millis, true)
}

/// Relies on chrono's `Local::now` and `FixedOffset::local_minus_utc`: the
/// seconds that the local clock is ahead of UTC now, which a `FixedOffset`
/// keeps strictly within a day.
#[verifier::external_body]
fn local_utc_offset() -> (r: i32)
    ensures
        -86400 < r < 86400,
{
    chrono::Local::now().offset().local_minus_utc()
}

/// The kind of a request.
#[derive(Debug, Clone, Copy, PartialEq, Eq)]
pub enum RequestType {
    LocationInformation,
    Trip,
    StopEvent,
    Unknown,
}

/// The name of the request element of a request type.
pub open spec fn request_element(t: RequestType) -> Result<Seq<char>, RequestError> {
    match t {
        RequestType::LocationInformation => Ok("OJPLocationInformationRequest"@),
        RequestType::Trip => Ok("OJPTripRequest"@),
        RequestType::StopEvent => Ok("OJPStopEventRequest"@),
        RequestType::Unknown => Err(RequestError::UnknownRequestType),
    }
}

impl RequestType {
    /// The name of the request element of this request type.
    pub fn element_name(self) -> (r: Result<String, RequestError>)
        ensures
            match request_element(self) {
                Ok(n) => r matches Ok(s) && s@ == n,
                Err(e) => r == Err::<String, RequestError>(e),
            },
    {
        match self {
            RequestType::LocationInformation => Ok("OJPLocationInformationRequest".to_string()),
            RequestType::Trip => Ok("OJPTripRequest".to_string()),
            RequestType::StopEvent => Ok("OJPStopEventRequest".to_string()),
            RequestType::Unknown => Err(RequestError::UnknownRequestType),
        }
    }
}

/// Collects what a request needs.
pub struct RequestBuilder {
    pub token: Option<String>,
    /// Seconds from the epoch, UTC.
    pub date_time: i64,
    pub request_type: RequestType,
    pub number_results: u32,
    pub from: Option<i32>,
    pub to: Option<i32>,
    pub name: Option<String>,
    pub requestor_ref: String,
}

/// The body of a location search.
pub open spec fn location_body(
    now: Seq<char>,
    requestor: Seq<char>,
    name: Seq<char>,
    number_results: u32,
) -> Seq<char> {
    HEAD@ + now + REQUESTOR@ + requestor + LOCATION_OPEN@ + now + LOCATION_NAME@ + name
        + LOCATION_COUNT@ + decimal_text(number_results as int) + LOCATION_CLOSE@
}

/// The body of a trip search.
pub open spec fn trip_body(
    now: Seq<char>,
    requestor: Seq<char>,
    from: i32,
    to: i32,
    date_time: Seq<char>,
    number_results: u32,
) -> Seq<char> {
    HEAD@ + now + REQUESTOR@ + requestor + TRIP_OPEN@ + now + TRIP_ORIGIN@ + decimal_text(
        from as int,
    ) + TRIP_TIME@ + date_time + TRIP_DESTINATION@ + decimal_text(to as int) + TRIP_COUNT@
        + decimal_text(number_results as int) + TRIP_CLOSE@
}

/// The body of the request that `b` describes, sent at the time `now`, or
/// what is missing for it.
pub open spec fn request_body(b: RequestBuilder, now: Seq<char>) -> Result<Seq<char>, RequestError> {
    match b.request_type {
        RequestType::Unknown => Err(RequestError::UnknownRequestType),
        RequestType::StopEvent => Err(RequestError::EventsRequestTypeNotImplemented),
        RequestType::LocationInformation => if b.number_results == 0 {
            Err(RequestError::InvalidNumberResults(0))
        } else {
            match b.name {
                None => Err(RequestError::MissingLocationName),
                Some(name) => Ok(location_body(now, b.requestor_ref@, name@, b.number_results)),
            }
        },
        RequestType::Trip => if b.number_results == 0 {
            Err(RequestError::InvalidNumberResults(0))
        } else {
            match (b.from, b.to) {
                (Some(from), Some(to)) => Ok(
                    trip_body(
                        now,
                        b.requestor_ref@,
                        from,
                        to,
                        rfc3339_text(b.date_time as int),
                        b.number_results,
                    ),
                ),
                (None, None) => Err(RequestError::MissingFromAndToId),
                (Some(_), None) => Err(RequestError::MissingToId),
                (None, Some(_)) => Err(RequestError::MissingFromId),
            }
        },
    }
}

/// Whether `r` is the body of `b` for some sending time, or the error that
/// every sending time gives.
pub open spec fn body_outcome(b: RequestBuilder, r: Result<String, RequestError>) -> bool {
    match request_body(b, Seq::empty()) {
        Err(e) => r == Err::<String, RequestError>(e),
        Ok(_) => r matches Ok(s) && exists|now: Seq<char>| request_body(b, now) == Ok::<Seq<char>, RequestError>(s@),
    }
}

impl RequestBuilder {
    /// A builder for a request at the UTC time `date_time - utc_offset`.
    pub fn with_utc_offset(date_time: Timestamp, utc_offset: i32) -> (r: RequestBuilder)
        requires
            -86400 < utc_offset < 86400,
        ensures
            r.date_time == date_time@ - utc_offset,
            -REQUEST_TIME_LIMIT <= r.date_time <= REQUEST_TIME_LIMIT,
            r.token is None,
            r.request_type == RequestType::Unknown,
            r.number_results == 0,
            r.from is None,
            r.to is None,
            r.name is None,
            r.requestor_ref@.len() == 0,
    {
        let local = date_time.seconds();
        RequestBuilder {
            token: None,
            date_time: local - utc_offset as i64,
            request_type: RequestType::Unknown,
            number_results: 0,
            from: None,
            to: None,
            name: None,
            requestor_ref: String::new(),
        }
    }

    /// A builder for a request at the local time `date_time`, turned into UTC
    /// with the offset that the local clock has now.
    pub fn new(date_time: Timestamp) -> (r: RequestBuilder)
        ensures
            -86400 < date_time@ - r.date_time < 86400,
            -REQUEST_TIME_LIMIT <= r.date_time <= REQUEST_TIME_LIMIT,
            r.token is None,
            r.request_type == RequestType::Unknown,
            r.number_results == 0,
            r.from is None,
            r.to is None,
            r.name is None,
            r.requestor_ref@.len() == 0,
    {
        let offset = local_utc_offset();
        RequestBuilder::with_utc_offset(date_time, offset)
    }

    pub fn set_from(self, from: i32) -> (r: RequestBuilder)
        ensures
            r == (RequestBuilder { from: Some(from), ..self }),
    {
        RequestBuilder { from: Some(from), ..self }
    }

    pub fn set_to(self, to: i32) -> (r: RequestBuilder)
        ensures
            r == (RequestBuilder { to: Some(to), ..self }),
    {
        RequestBuilder { to: Some(to), ..self }
    }

    pub fn set_token(self, token: &str) -> (r: RequestBuilder)
        ensures
            r.token matches Some(t) && t@ == token@,
            r == (RequestBuilder { token: r.token, ..self }),
    {
        RequestBuilder { token: Some(token.to_string()), ..self }
    }

    pub fn set_request_type(self, request_type: RequestType) -> (r: RequestBuilder)
        ensures
            r == (RequestBuilder { request_type, ..self }),
    {
        RequestBuilder { request_type, ..self }
    }

    pub fn set_number_results(self, number_results: u32) -> (r: RequestBuilder)
        ensures
            r == (RequestBuilder { number_results, ..self }),
    {
        RequestBuilder { number_results, ..self }
    }

    pub fn set_name(self, name: &str) -> (r: RequestBuilder)
        ensures
            r.name matches Some(n) && n@ == name@,
            r == (RequestBuilder { name: r.name, ..self }),
    {
        RequestBuilder { name: Some(name.to_string()), ..self }
    }

    pub fn set_requestor_ref(self, requestor_ref: &str) -> (r: RequestBuilder)
        ensures
            r.requestor_ref@ == requestor_ref@,
            r == (RequestBuilder { requestor_ref: r.requestor_ref, ..self }),
    {
        RequestBuilder { requestor_ref: requestor_ref.to_string(), ..self }
    }

    /// The request body, with `now` as the time of sending.
    pub fn try_request_body_at(&self, now: &str) -> (r: Result<String, RequestError>)
        requires
            -REQUEST_TIME_LIMIT <= self.date_time <= REQUEST_TIME_LIMIT,
        ensures
            match request_body(*self, now@) {
                Ok(b) => r matches Ok(s) && s@ == b,
                Err(e) => r == Err::<String, RequestError>(e),
            },
    {
        let number_results = self.number_results;
        match self.request_type {
            RequestType::Unknown => Err(RequestError::UnknownRequestType),
            RequestType::StopEvent => Err(RequestError::EventsRequestTypeNotImplemented),
            RequestType::LocationInformation => {
                if number_results == 0 {
                    return Err(RequestError::InvalidNumberResults(number_results));
                }
                let name = match &self.name {
                    Some(n) => n,
                    None => {
                        return Err(RequestError::MissingLocationName);
                    },
                };
                let mut out = String::new();
                out.append(HEAD);
                out.append(now);
                out.append(REQUESTOR);
                out.append(self.requestor_ref.as_str());
                out.append(LOCATION_OPEN);
                out.append(now);
                out.append(LOCATION_NAME);
                out.append(name.as_str());
                out.append(LOCATION_COUNT);
                append_decimal(&mut out, number_results as i64);
                out.append(LOCATION_CLOSE);
                assert(out@ =~= location_body(now@, self.requestor_ref@, name@, number_results));
                Ok(out)
            },
            RequestType::Trip => {
                if number_results == 0 {
                    return Err(RequestError::InvalidNumberResults(number_results));
                }
                let (from, to) = match (self.from, self.to) {
                    (Some(from), Some(to)) => (from, to),
                    (None, None) => {
                        return Err(RequestError::MissingFromAndToId);
                    },
                    (Some(_), None) => {
                        return Err(RequestError::MissingToId);
                    },
                    (None, Some(_)) => {
                        return Err(RequestError::MissingFromId);
                    },
                };
                let date_time = format_rfc3339(self.date_time);
                let mut out = String::new();
                out.append(HEAD);
                out.append(now);
                out.append(REQUESTOR);
                out.append(self.requestor_ref.as_str());
                out.append(TRIP_OPEN);
                out.append(now);
                out.append(TRIP_ORIGIN);
                append_decimal(&mut out, from as i64);
                out.append(TRIP_TIME);
                out.append(date_time.as_str());
                out.append(TRIP_DESTINATION);
                append_decimal(&mut out, to as i64);
                out.append(TRIP_COUNT);
                append_decimal(&mut out, number_results as i64);
                out.append(TRIP_CLOSE);
                assert(out@ =~= trip_body(
                    now@,
                    self.requestor_ref@,
                    from,
                    to,
                    date_time@,
                    number_results,
                ));
                Ok(out)
            },
        }
    }

    /// The request body, sent now.
    pub fn try_request_body(&self) -> (r: Result<String, RequestError>)
        requires
            -REQUEST_TIME_LIMIT <= self.date_time <= REQUEST_TIME_LIMIT,
        ensures
            body_outcome(*self, r),
    {
        let now = now_rfc3339();
        let r = self.try_request_body_at(now.as_str());
        assert(request_body(*self, Seq::empty()) is Ok <==> request_body(*self, now@) is Ok);
        r
    }

    /// The request body together with the token, where the request is
    /// complete; a missing token is reported after what the body misses.
    pub fn authorized_body(&self) -> (r: Result<(String, String), RequestError>)
        requires
            -REQUEST_TIME_LIMIT <= self.date_time <= REQUEST_TIME_LIMIT,
        ensures
            match request_body(*self, Seq::empty()) {
                Err(e) => r == Err::<(String, String), RequestError>(e),
                Ok(_) => match self.token {
                    None => r == Err::<(String, String), RequestError>(RequestError::MissingAuthToken),
                    Some(t) => r matches Ok((token, body)) && token@ == t@ && exists|now: Seq<char>|
                        request_body(*self, now) == Ok::<Seq<char>, RequestError>(body@),
                },
            },
    {
        let body = match self.try_request_body() {
            Ok(b) => b,
            Err(e) => {
                return Err(e);
            },
        };
        match &self.token {
            Some(t) => Ok((t.clone(), body)),
            None => Err(RequestError::MissingAuthToken),
        }
    }
}

} // verus!
