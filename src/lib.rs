//! Reads journey-planner responses and folds their trips into a small,
//! uniform itinerary model: durations and stop references are decoded, each
//! leg is resolved to one kind, and the legs of a trip are folded into legs
//! with concrete times and numeric station codes.
pub mod duration;
pub mod error;
pub mod leg;
pub mod number;
pub mod requests;
pub mod search;
pub mod simplify;
pub mod stop_id;
pub mod time;
pub mod wire;

pub use error::{OjpError, RequestError};
pub use leg::LegType;
pub use requests::{RequestBuilder, RequestType};
pub use simplify::{SimplifiedLeg, SimplifiedTrip};
pub use time::Timestamp;
pub use wire::{Leg, PlaceResult, TimedLeg, TransferLeg, ContinuousLeg, Trip, TripInfo, TripResult, OJP};
