use vstd::prelude::*;

use crate::datetime_utils::DateTime;

verus! {

/// The occupancy record of one stay: the logical who/when state of a
/// room, materialized across the three physical stores.
#[derive(Clone, Debug)]
pub struct Booking {
    pub room_number: String,
    pub password: String,
    pub name: Option<String>,
    pub folio_number: Option<String>,
    pub checkin_date: DateTime,
    pub checkout_date: DateTime,
    pub gtype: Option<String>,
}

} // verus!
