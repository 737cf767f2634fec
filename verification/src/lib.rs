//! A verified transition engine for room occupancy and its paired
//! network-access credential: command validation, date/time resolution
//! with documented fallbacks, occupancy preconditions, and atomic
//! multi-table persistence that keeps room state and credential state
//! from diverging.

use vstd::prelude::*;

pub mod clock;
pub mod datetime_utils;
pub mod dtos;
pub mod entities;
pub mod errors;
pub mod services;
pub mod storage;
pub mod string_utils;

pub use clock::current_time_of_day;
pub use datetime_utils::{
    parse_checkin_datetime, parse_checkout_datetime, DateTime, DateTimeError, TimeOfDay,
};
pub use dtos::{PmsQueryParams, PmsResponse};
pub use entities::Booking;
pub use errors::ErrorResponse;
pub use services::{error_to_response, validate_request, Action, BookingService};
pub use storage::{CredRow, GroupRow, RoomRow, Storage};
pub use string_utils::{capitalize_first_word, clean_password, get_formatted_name};

verus! {

} // verus!
