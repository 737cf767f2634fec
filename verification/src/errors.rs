use vstd::prelude::*;

verus! {

/// The error taxonomy of the engine.  Malformed or missing input is a
/// validation failure, an occupancy precondition violated is a conflict,
/// a room or service not in the required state is not-found, and a
/// storage-level failure is an internal error.  None of them terminates
/// the process.
#[derive(Debug)]
pub enum ErrorResponse {
    Validation(String),
    Conflict(String),
    NotFound(String),
    InternalServerErr(String),
}

impl ErrorResponse {
    /// The message carried by the error, whatever its kind.
    pub open spec fn spec_message(self) -> Seq<char> {
        match self {
            ErrorResponse::Validation(m) => m@,
            ErrorResponse::Conflict(m) => m@,
            ErrorResponse::NotFound(m) => m@,
            ErrorResponse::InternalServerErr(m) => m@,
        }
    }

    /// The human-readable message carried by any variant.
    pub fn message(&self) -> (m: &String)
        ensures
            m@ == self.spec_message(),
    {
        match self {
            ErrorResponse::Validation(m) => m,
            ErrorResponse::Conflict(m) => m,
            ErrorResponse::NotFound(m) => m,
            ErrorResponse::InternalServerErr(m) => m,
        }
    }
}

/// The conflict message for a room that is already occupied.
pub open spec fn in_use_msg(room: Seq<char>) -> Seq<char> {
    "room "@ + room + " is in use"@
}

/// The failure message when no service assignment is eligible.
pub open spec fn no_service_msg() -> Seq<char> {
    "No active hotel service found"@
}

/// The not-found message for a check-out of a vacant room.
pub open spec fn not_found_checkout_msg(room: Seq<char>) -> Seq<char> {
    "room "@ + room + " not found for checkout"@
}

/// The not-found message for an update whose source room is vacant.
pub open spec fn not_found_update_msg(room: Seq<char>) -> Seq<char> {
    "room "@ + room + " not found for update"@
}

/// The conflict message for an update whose target room is occupied.
pub open spec fn target_in_use_msg(room: Seq<char>) -> Seq<char> {
    "target room "@ + room + " is already in use"@
}

/// The success message of a check-in.
pub open spec fn checkin_ok_msg(room: Seq<char>) -> Seq<char> {
    "room "@ + room + " successfully checkin"@
}

/// The success message of a check-out.
pub open spec fn checkout_ok_msg(room: Seq<char>) -> Seq<char> {
    "room "@ + room + " successfully checkout"@
}

/// The success message of an update that kept the room number.
pub open spec fn update_ok_msg(room: Seq<char>) -> Seq<char> {
    "room "@ + room + " successfully updated"@
}

/// The success message of an update that moved the stay to another room.
pub open spec fn update_moved_msg(old_room: Seq<char>, new_room: Seq<char>) -> Seq<char> {
    "room "@ + old_room + " successfully updated to "@ + new_room
}

/// Builds `prefix + body + suffix`.
pub(crate) fn wrap_msg(prefix: &str, body: &str, suffix: &str) -> (m: String)
    ensures
        m@ == prefix@ + body@ + suffix@,
{
    let mut m = String::from_str(prefix);
    m.append(body);
    m.append(suffix);
    m
}

/// Builds `p1 + b1 + p2 + b2`.
pub(crate) fn wrap_msg2(p1: &str, b1: &str, p2: &str, b2: &str) -> (m: String)
    ensures
        m@ == p1@ + b1@ + p2@ + b2@,
{
    let mut m = String::from_str(p1);
    m.append(b1);
    m.append(p2);
    m.append(b2);
    m
}

} // verus!
