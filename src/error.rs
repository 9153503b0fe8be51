//! Errors of the library.
use vstd::prelude::*;

verus! {

/// Why a request could not be put together.
#[derive(Debug, Clone, PartialEq, Eq)]
pub enum RequestError {
    MissingAuthToken,
    MissingLocationName,
    MissingFromAndToId,
    MissingFromId,
    MissingToId,
    UnknownRequestType,
    EventsRequestTypeNotImplemented,
    InvalidNumberResults(u32),
}

/// Why a response could not be read or turned into trips.
#[derive(Debug, Clone, PartialEq, Eq)]
pub enum OjpError {
    /// The payload does not have the expected shape: the reader's message and
    /// the payload itself.
    FailedToParseXml(String, String),
    /// The server reported that the search between two stops found nothing.
    FailedToFindTrip { dep_id: i32, arr_id: i32, msg: String },
    /// A leg carries none of the timed, transfer or continuous shapes.
    UnkownLegType,
    /// A fragment that had to be a number is not one, or the number it gives
    /// is out of range.
    ParseInt(String),
    /// A trip's times run out of the range that a timestamp can hold.
    FailedToConvertToSimplifiedTrip,
    /// A request lacks what it needs.
    RequestBuilderError(RequestError),
    PlaceResultsNotFound,
    /// A structured stop reference with fewer than four fields, or whose
    /// fourth field is no number.
    MalformedSloid(String),
    /// The country code of a structured stop reference is not in the table.
    FailedToConvertIsoCode(String),
}

} // verus!
