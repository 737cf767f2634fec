use vstd::prelude::*;

use crate::clock::current_time_of_day;
use crate::datetime_utils::{
    parse_checkin_datetime, parse_checkin_spec, parse_checkout_datetime, parse_checkout_spec,
    DateTime, DateTimeError, TimeOfDay,
};
use crate::dtos::{opt_view, PmsQueryParams, PmsResponse};
use crate::entities::Booking;
use crate::errors::{
    checkin_ok_msg, checkout_ok_msg, in_use_msg, no_service_msg, not_found_checkout_msg,
    not_found_update_msg, target_in_use_msg, update_moved_msg, update_ok_msg, wrap_msg, wrap_msg2,
    ErrorResponse,
};
use crate::storage::{
    creds_without, groups_without, rooms_without, Storage,
};
use crate::string_utils::{
    clean_password, clean_password_spec, formatted_name_spec, get_formatted_name, str_eq, trim_spec,
    trim_str,
};

verus! {

/// Whether the request lacks a usable room number: absent, or blank
/// after trimming.
pub open spec fn missing_room(q: PmsQueryParams) -> bool {
    match q.room {
        Some(r) => trim_spec(r@).len() == 0,
        None => true,
    }
}

/// Whether the request lacks a usable passcode: absent, or empty.
pub open spec fn missing_pass(q: PmsQueryParams) -> bool {
    match q.pass {
        Some(p) => p@.len() == 0,
        None => true,
    }
}

/// Whether the request lacks a usable check-in date: absent, or blank.
pub open spec fn missing_cidate(q: PmsQueryParams) -> bool {
    match q.cidate {
        Some(s) => trim_spec(s@).len() == 0,
        None => true,
    }
}

/// Whether the request lacks a usable check-out date: absent, or blank.
pub open spec fn missing_codate(q: PmsQueryParams) -> bool {
    match q.codate {
        Some(s) => trim_spec(s@).len() == 0,
        None => true,
    }
}

/// The requested room number, once validation passed.
pub open spec fn room_of(q: PmsQueryParams) -> Seq<char> {
    (q.room->0)@
}

/// The source room of an update: the given old room, defaulting to the
/// requested room when absent (no room change).
pub open spec fn old_room_of(q: PmsQueryParams) -> Seq<char> {
    match q.oldroom {
        Some(r) => r@,
        None => room_of(q),
    }
}

/// The trimmed check-in date literal.
pub open spec fn cidate_trimmed(q: PmsQueryParams) -> Seq<char> {
    trim_spec((q.cidate->0)@)
}

/// The trimmed check-out date literal.
pub open spec fn codate_trimmed(q: PmsQueryParams) -> Seq<char> {
    trim_spec((q.codate->0)@)
}

/// The resolved check-in timestamp of the request.
pub open spec fn checkin_dt(q: PmsQueryParams, now: TimeOfDay) -> Option<DateTime> {
    parse_checkin_spec(cidate_trimmed(q), now)
}

/// The resolved check-out timestamp of the request.
pub open spec fn checkout_dt(q: PmsQueryParams) -> Result<DateTime, DateTimeError> {
    parse_checkout_spec(codate_trimmed(q), q.cotime.deep_view())
}

/// The credential derived from the raw passcode.
pub open spec fn derived_password(q: PmsQueryParams) -> Seq<char> {
    clean_password_spec((q.pass->0)@)
}

/// The display name derived from the guest name, falling back to the raw
/// passcode.
pub open spec fn derived_name(q: PmsQueryParams) -> Seq<char> {
    formatted_name_spec(q.name.deep_view(), q.pass.deep_view())
}

/// When a check-in is carried out: all fields usable, the room vacant,
/// both timestamps resolvable, and a service assignment available.
pub open spec fn checkin_accepts(s: Storage, q: PmsQueryParams, now: TimeOfDay) -> bool {
    &&& !missing_room(q)
    &&& !missing_pass(q)
    &&& !missing_cidate(q)
    &&& !missing_codate(q)
    &&& !s.has_room(room_of(q))
    &&& checkin_dt(q, now) is Some
    &&& checkout_dt(q) is Ok
    &&& s.services@.len() > 0
}

/// Which failure a check-in reports against this store: the planner's
/// failures in their precedence order, and after them the storage-side
/// service lookup.
pub open spec fn checkin_err(s: Storage, q: PmsQueryParams, now: TimeOfDay, e: ErrorResponse) -> bool {
    if !missing_room(q) && !missing_pass(q) && !missing_cidate(q) && !missing_codate(q)
        && !s.has_room(room_of(q)) && checkin_dt(q, now) is Some && checkout_dt(q) is Ok {
        s.services@.len() == 0 && (e matches ErrorResponse::NotFound(m) && m@ == no_service_msg())
    } else {
        plan_checkin_err(s.has_room(room_of(q)), q, now, e)
    }
}

/// What a carried-out check-in does to the store: one row appended to
/// each of the three tables, holding the derived credential, the derived
/// display name, the resolved timestamps, and the first eligible service
/// binding.
pub open spec fn checkin_effect(s0: Storage, s1: Storage, q: PmsQueryParams, now: TimeOfDay) -> bool {
    &&& s1.rooms@ == s0.rooms@.push(s1.rooms@.last())
    &&& s1.creds@ == s0.creds@.push(s1.creds@.last())
    &&& s1.groups@ == s0.groups@.push(s1.groups@.last())
    &&& s1.services@ == s0.services@
    &&& ({
        let row = s1.rooms@.last();
        &&& row.room_number@ == room_of(q)
        &&& row.password@ == derived_password(q)
        &&& row.name@ == derived_name(q)
        &&& row.service_id == s0.services@[0].0
        &&& row.folio_number@ == (match q.rsvno {
            Some(f) => f@,
            None => Seq::<char>::empty(),
        })
        &&& row.checkin_date == checkin_dt(q, now)->0
        &&& row.checkout_date == checkout_dt(q)->Ok_0
    })
    &&& s1.creds@.last().username@ == room_of(q)
    &&& s1.creds@.last().value@ == derived_password(q)
    &&& s1.groups@.last().username@ == room_of(q)
    &&& s1.groups@.last().groupname@ == s0.services@[0].1@
    &&& s1.has_room(room_of(q))
}

/// When a check-out is carried out: a usable room number naming an
/// active room.
pub open spec fn checkout_accepts(s: Storage, q: PmsQueryParams) -> bool {
    !missing_room(q) && s.has_room(room_of(q))
}

/// Which failure a check-out reports against this store.
pub open spec fn checkout_err(s: Storage, q: PmsQueryParams, e: ErrorResponse) -> bool {
    plan_checkout_err(s.has_room(room_of(q)), q, e)
}

/// What a carried-out check-out does to the store: every row of the room
/// disappears from all three tables, and the room is vacant afterwards.
pub open spec fn checkout_effect(s0: Storage, s1: Storage, q: PmsQueryParams) -> bool {
    &&& s1.rooms@ == rooms_without(s0.rooms@, room_of(q))
    &&& s1.creds@ == creds_without(s0.creds@, room_of(q))
    &&& s1.groups@ == groups_without(s0.groups@, room_of(q))
    &&& s1.services@ == s0.services@
    &&& !s1.has_room(room_of(q))
    &&& !s1.has_cred(room_of(q))
    &&& !s1.has_group(room_of(q))
}

/// When an update is carried out: all fields usable, the source room
/// active, the target room vacant when it differs, and both timestamps
/// resolvable.
pub open spec fn update_accepts(s: Storage, q: PmsQueryParams, now: TimeOfDay) -> bool {
    &&& !missing_room(q)
    &&& !missing_pass(q)
    &&& !missing_cidate(q)
    &&& !missing_codate(q)
    &&& s.has_room(old_room_of(q))
    &&& (room_of(q) != old_room_of(q) ==> !s.has_room(room_of(q)))
    &&& checkin_dt(q, now) is Some
    &&& checkout_dt(q) is Ok
}

/// Which failure an update reports against this store.
pub open spec fn update_err(s: Storage, q: PmsQueryParams, now: TimeOfDay, e: ErrorResponse) -> bool {
    plan_update_err(s.has_room(old_room_of(q)), s.has_room(room_of(q)), q, now, e)
}

/// What a carried-out update does to the store: the source room's rows
/// are rewritten in all three tables, rekeyed to the requested room,
/// with the newly derived credential, name and timestamps; the service
/// binding, group name and folio number of the stay are kept; every
/// other row is untouched.
pub open spec fn update_effect(s0: Storage, s1: Storage, q: PmsQueryParams, now: TimeOfDay) -> bool {
    let k = old_room_of(q);
    let nk = room_of(q);
    &&& s1.rooms@.len() == s0.rooms@.len()
    &&& s1.creds@.len() == s0.creds@.len()
    &&& s1.groups@.len() == s0.groups@.len()
    &&& s1.services@ == s0.services@
    &&& (forall|i: int|
        0 <= i < s0.rooms@.len() && s0.rooms@[i].room_number@ == k ==> ({
            let row = #[trigger] s1.rooms@[i];
            &&& row.room_number@ == nk
            &&& row.password@ == derived_password(q)
            &&& row.name@ == derived_name(q)
            &&& row.service_id == s0.rooms@[i].service_id
            &&& row.folio_number@ == s0.rooms@[i].folio_number@
            &&& row.checkin_date == checkin_dt(q, now)->0
            &&& row.checkout_date == checkout_dt(q)->Ok_0
        }))
    &&& (forall|i: int|
        0 <= i < s0.rooms@.len() && s0.rooms@[i].room_number@ != k ==> #[trigger] s1.rooms@[i]
            == s0.rooms@[i])
    &&& (forall|i: int|
        0 <= i < s0.creds@.len() && s0.creds@[i].username@ == k ==> (#[trigger] s1.creds@[i].username@
            == nk && s1.creds@[i].value@ == derived_password(q)))
    &&& (forall|i: int|
        0 <= i < s0.creds@.len() && s0.creds@[i].username@ != k ==> #[trigger] s1.creds@[i] == s0.creds@[i])
    &&& (forall|i: int|
        0 <= i < s0.groups@.len() && s0.groups@[i].username@ == k ==> (#[trigger] s1.groups@[i].username@
            == nk && s1.groups@[i].groupname@ == s0.groups@[i].groupname@))
    &&& (forall|i: int|
        0 <= i < s0.groups@.len() && s0.groups@[i].username@ != k ==> #[trigger] s1.groups@[i]
            == s0.groups@[i])
    &&& s1.has_room(nk)
    &&& (nk != k ==> !s1.has_room(k))
    &&& (forall|u: Seq<char>| u != k && u != nk ==> s1.has_room(u) == s0.has_room(u))
}

/// The room number is required and must be non-blank after trimming;
/// the value kept, and used as the stored key, is the room number as
/// given, untrimmed.
fn required_room(o: &Option<String>) -> (r: Result<String, ErrorResponse>)
    ensures
        match r {
            Ok(s) => (*o matches Some(v) && v@ == s@ && trim_spec(s@).len() > 0),
            Err(e) => (match *o {
                Some(v) => trim_spec(v@).len() == 0,
                None => true,
            }) && (e matches ErrorResponse::Validation(m) && m@ == "room is required"@),
        },
{
    match o {
        Some(s) => {
            let t = trim_str(s.as_str());
            if t.is_empty() {
                Err(ErrorResponse::Validation(String::from_str("room is required")))
            } else {
                Ok(s.clone())
            }
        },
        None => Err(ErrorResponse::Validation(String::from_str("room is required"))),
    }
}

fn required_string(o: &Option<String>, msg: &str) -> (r: Result<String, ErrorResponse>)
    ensures
        match r {
            Ok(s) => (*o matches Some(v) && v@ == s@ && s@.len() > 0),
            Err(e) => (match *o {
                Some(v) => v@.len() == 0,
                None => true,
            }) && (e matches ErrorResponse::Validation(m) && m@ == msg@),
        },
{
    match o {
        Some(s) => {
            if s.as_str().is_empty() {
                Err(ErrorResponse::Validation(String::from_str(msg)))
            } else {
                Ok(s.clone())
            }
        },
        None => Err(ErrorResponse::Validation(String::from_str(msg))),
    }
}

fn required_date_string<'a>(o: &'a Option<String>, msg: &str) -> (r: Result<&'a str, ErrorResponse>)
    ensures
        match r {
            Ok(t) => (*o matches Some(v) && t@ == trim_spec(v@) && t@.len() > 0),
            Err(e) => (match *o {
                Some(v) => trim_spec(v@).len() == 0,
                None => true,
            }) && (e matches ErrorResponse::Validation(m) && m@ == msg@),
        },
{
    match o {
        Some(s) => {
            let t = trim_str(s.as_str());
            if t.is_empty() {
                Err(ErrorResponse::Validation(String::from_str(msg)))
            } else {
                Ok(t)
            }
        },
        None => Err(ErrorResponse::Validation(String::from_str(msg))),
    }
}

fn clone_opt_string(o: &Option<String>) -> (r: Option<String>)
    ensures
        opt_view(r) == opt_view(*o),
{
    match o {
        Some(s) => Some(s.clone()),
        None => None,
    }
}

/// One storage action the engine has decided on: the whole-record write,
/// removal or rekey that the storage gateway commits atomically.
#[derive(Debug)]
pub enum Action {
    DoCheckin(Booking),
    DoCheckout(Booking),
    DoUpdate(String, Booking),
}

/// How a planned booking is derived from the request: canonicalized
/// passcode, formatted display name, resolved timestamps, folio and
/// guest type carried over.
pub open spec fn booking_derived(b: Booking, q: PmsQueryParams, now: TimeOfDay) -> bool {
    &&& b.room_number@ == room_of(q)
    &&& b.password@ == derived_password(q)
    &&& (b.name matches Some(n) && n@ == derived_name(q))
    &&& opt_view(b.folio_number) == opt_view(q.rsvno)
    &&& b.checkin_date == checkin_dt(q, now)->0
    &&& b.checkout_date == checkout_dt(q)->Ok_0
    &&& opt_view(b.gtype) == opt_view(q.gtype)
}

/// Which failure a planned check-in reports, given the oracle's answer.
pub open spec fn plan_checkin_err(
    active_room: bool,
    q: PmsQueryParams,
    now: TimeOfDay,
    e: ErrorResponse,
) -> bool {
    if missing_room(q) {
        e matches ErrorResponse::Validation(m) && m@ == "room is required"@
    } else if missing_pass(q) {
        e matches ErrorResponse::Validation(m) && m@ == "pass is required"@
    } else if missing_cidate(q) {
        e matches ErrorResponse::Validation(m) && m@ == "cidate is required"@
    } else if missing_codate(q) {
        e matches ErrorResponse::Validation(m) && m@ == "codate is required"@
    } else if active_room {
        e matches ErrorResponse::Conflict(m) && m@ == in_use_msg(room_of(q))
    } else if checkin_dt(q, now) is None {
        e matches ErrorResponse::Validation(m) && m@ == "invalid checkin date format"@
    } else if checkout_dt(q) is Err {
        e matches ErrorResponse::Validation(m) && m@ == (if checkout_dt(q)->Err_0
            == DateTimeError::DateFormat {
            "invalid checkout date format"@
        } else {
            "invalid checkout time format"@
        })
    } else {
        false
    }
}

/// Which failure a planned check-out reports, given the oracle's answer.
pub open spec fn plan_checkout_err(active_room: bool, q: PmsQueryParams, e: ErrorResponse) -> bool {
    if missing_room(q) {
        e matches ErrorResponse::Validation(m) && m@ == "room is required"@
    } else if !active_room {
        e matches ErrorResponse::NotFound(m) && m@ == not_found_checkout_msg(room_of(q))
    } else {
        false
    }
}

/// Which failure a planned update reports, given the oracle's answers.
pub open spec fn plan_update_err(
    active_old: bool,
    active_room: bool,
    q: PmsQueryParams,
    now: TimeOfDay,
    e: ErrorResponse,
) -> bool {
    if missing_room(q) {
        e matches ErrorResponse::Validation(m) && m@ == "room is required"@
    } else if missing_pass(q) {
        e matches ErrorResponse::Validation(m) && m@ == "pass is required"@
    } else if missing_cidate(q) {
        e matches ErrorResponse::Validation(m) && m@ == "cidate is required"@
    } else if missing_codate(q) {
        e matches ErrorResponse::Validation(m) && m@ == "codate is required"@
    } else if !active_old {
        e matches ErrorResponse::NotFound(m) && m@ == not_found_update_msg(old_room_of(q))
    } else if room_of(q) != old_room_of(q) && active_room {
        e matches ErrorResponse::Conflict(m) && m@ == target_in_use_msg(room_of(q))
    } else if checkin_dt(q, now) is None {
        e matches ErrorResponse::Validation(m) && m@ == "invalid checkin date format"@
    } else if checkout_dt(q) is Err {
        e matches ErrorResponse::Validation(m) && m@ == (if checkout_dt(q)->Err_0
            == DateTimeError::DateFormat {
            "invalid checkout date format"@
        } else {
            "invalid checkout time format"@
        })
    } else {
        false
    }
}

/// Which failure the planner reports, by mode; an unknown mode is a soft
/// validation failure.
pub open spec fn plan_err(
    active_room: bool,
    active_old: bool,
    q: PmsQueryParams,
    now: TimeOfDay,
    e: ErrorResponse,
) -> bool {
    if q.mode@ == "checkin"@ {
        plan_checkin_err(active_room, q, now, e)
    } else if q.mode@ == "checkout"@ {
        plan_checkout_err(active_room, q, e)
    } else if q.mode@ == "update"@ {
        plan_update_err(active_old, active_room, q, now, e)
    } else {
        e matches ErrorResponse::Validation(m) && m@ == "invalid mode"@
    }
}

/// What a successful plan holds, by mode: the preconditions it enforced,
/// the action's payload, and the success reply.
pub open spec fn plan_ok(
    active_room: bool,
    active_old: bool,
    q: PmsQueryParams,
    now: TimeOfDay,
    action: Action,
    resp: PmsResponse,
) -> bool {
    &&& known_mode(q)
    &&& resp.status@ == "success"@
    &&& (q.mode@ == "checkin"@ ==> {
        &&& !missing_room(q)
        &&& !missing_pass(q)
        &&& !missing_cidate(q)
        &&& !missing_codate(q)
        &&& !active_room
        &&& checkin_dt(q, now) is Some
        &&& checkout_dt(q) is Ok
        &&& (action matches Action::DoCheckin(b) && booking_derived(b, q, now))
        &&& resp.message@ == checkin_ok_msg(room_of(q))
    })
    &&& (q.mode@ == "checkout"@ ==> {
        &&& !missing_room(q)
        &&& active_room
        &&& (action matches Action::DoCheckout(b) && b.room_number@ == room_of(q))
        &&& resp.message@ == checkout_ok_msg(room_of(q))
    })
    &&& (q.mode@ == "update"@ ==> {
        &&& !missing_room(q)
        &&& !missing_pass(q)
        &&& !missing_cidate(q)
        &&& !missing_codate(q)
        &&& active_old
        &&& (room_of(q) != old_room_of(q) ==> !active_room)
        &&& checkin_dt(q, now) is Some
        &&& checkout_dt(q) is Ok
        &&& (action matches Action::DoUpdate(o, b) && o@ == old_room_of(q) && booking_derived(
            b,
            q,
            now,
        ))
        &&& resp.message@ == (if room_of(q) != old_room_of(q) {
            update_moved_msg(old_room_of(q), room_of(q))
        } else {
            update_ok_msg(room_of(q))
        })
    })
}

/// What request normalization alone guarantees when it passes: a known
/// mode and the fields that mode requires.
pub open spec fn normalize_ok(q: PmsQueryParams) -> bool {
    &&& known_mode(q)
    &&& !missing_room(q)
    &&& (q.mode@ != "checkout"@ ==> !missing_pass(q) && !missing_cidate(q) && !missing_codate(q))
}

/// Which failure request normalization alone reports: the mode and
/// required-field checks, decided before the store is consulted, in the
/// order the planner reports them.
pub open spec fn normalize_err(q: PmsQueryParams, e: ErrorResponse) -> bool {
    if q.mode@ == "checkin"@ || q.mode@ == "update"@ {
        if missing_room(q) {
            e matches ErrorResponse::Validation(m) && m@ == "room is required"@
        } else if missing_pass(q) {
            e matches ErrorResponse::Validation(m) && m@ == "pass is required"@
        } else if missing_cidate(q) {
            e matches ErrorResponse::Validation(m) && m@ == "cidate is required"@
        } else if missing_codate(q) {
            e matches ErrorResponse::Validation(m) && m@ == "codate is required"@
        } else {
            false
        }
    } else if q.mode@ == "checkout"@ {
        if missing_room(q) {
            e matches ErrorResponse::Validation(m) && m@ == "room is required"@
        } else {
            false
        }
    } else {
        e matches ErrorResponse::Validation(m) && m@ == "invalid mode"@
    }
}

/// The request-normalization stage alone: the mode and required-field
/// failures, decided without consulting the store.  A caller that runs
/// the real store can refuse malformed requests before it reads anything.
pub fn validate_request(query: &PmsQueryParams) -> (r: Result<(), ErrorResponse>)
    ensures
        match r {
            Ok(()) => normalize_ok(*query),
            Err(e) => normalize_err(*query, e),
        },
{
    proof {
        reveal_strlit("checkin");
        reveal_strlit("checkout");
        reveal_strlit("update");
        assert("checkin"@.len() == 7);
        assert("checkout"@.len() == 8);
        assert("update"@.len() == 6);
    }
    if str_eq(query.mode.as_str(), "checkin") || str_eq(query.mode.as_str(), "update") {
        match required_room(&query.room) {
            Ok(_) => (),
            Err(e) => {
                return Err(e);
            },
        }
        match required_string(&query.pass, "pass is required") {
            Ok(_) => (),
            Err(e) => {
                return Err(e);
            },
        }
        match required_date_string(&query.cidate, "cidate is required") {
            Ok(_) => (),
            Err(e) => {
                return Err(e);
            },
        }
        match required_date_string(&query.codate, "codate is required") {
            Ok(_) => (),
            Err(e) => {
                return Err(e);
            },
        }
        Ok(())
    } else if str_eq(query.mode.as_str(), "checkout") {
        match required_room(&query.room) {
            Ok(_) => (),
            Err(e) => {
                return Err(e);
            },
        }
        Ok(())
    } else {
        Err(ErrorResponse::Validation(String::from_str("invalid mode")))
    }
}

/// The transition engine: routes a decoded command to the check-in,
/// check-out or update logic, enforcing occupancy preconditions against
/// the store and resolving timestamps with the injected clock.
pub struct BookingService {
    pub repo: Storage,
}

impl BookingService {
    /// Builds the engine over its store.
    pub fn new(repo: Storage) -> (s: Self)
        ensures
            s.repo == repo,
    {
        BookingService { repo }
    }

    fn plan_checkin(query: &PmsQueryParams, active_room: bool, now: TimeOfDay) -> (r: Result<
        (Booking, PmsResponse),
        ErrorResponse,
    >)
        requires
            now.wf(),
        ensures
            match r {
                Ok(p) => {
                    &&& !missing_room(*query)
                    &&& !missing_pass(*query)
                    &&& !missing_cidate(*query)
                    &&& !missing_codate(*query)
                    &&& !active_room
                    &&& checkin_dt(*query, now) is Some
                    &&& checkout_dt(*query) is Ok
                    &&& booking_derived(p.0, *query, now)
                    &&& p.1.status@ == "success"@
                    &&& p.1.message@ == checkin_ok_msg(room_of(*query))
                },
                Err(e) => plan_checkin_err(active_room, *query, now, e),
            },
    {
        let room = match required_room(&query.room) {
            Ok(r) => r,
            Err(e) => {
                return Err(e);
            },
        };
        let pass_raw = match required_string(&query.pass, "pass is required") {
            Ok(p) => p,
            Err(e) => {
                return Err(e);
            },
        };
        let ci_s = match required_date_string(&query.cidate, "cidate is required") {
            Ok(s) => s,
            Err(e) => {
                return Err(e);
            },
        };
        let co_s = match required_date_string(&query.codate, "codate is required") {
            Ok(s) => s,
            Err(e) => {
                return Err(e);
            },
        };
        if active_room {
            let m = wrap_msg("room ", room.as_str(), " is in use");
            return Err(ErrorResponse::Conflict(m));
        }
        let ci = match parse_checkin_datetime(ci_s, now) {
            Ok(d) => d,
            Err(_) => {
                return Err(
                    ErrorResponse::Validation(String::from_str("invalid checkin date format")),
                );
            },
        };
        let co = match &query.cotime {
            Some(t) => parse_checkout_datetime(co_s, Some(t.as_str())),
            None => parse_checkout_datetime(co_s, None),
        };
        let co = match co {
            Ok(d) => d,
            Err(e0) => {
                let msg = match e0 {
                    DateTimeError::DateFormat => "invalid checkout date format",
                    DateTimeError::TimeFormat => "invalid checkout time format",
                };
                return Err(ErrorResponse::Validation(String::from_str(msg)));
            },
        };
        let pass = clean_password(pass_raw.as_str());
        let formatted_name = get_formatted_name(&query.name, &query.pass);
        let msg = wrap_msg("room ", room.as_str(), " successfully checkin");
        let booking = Booking {
            room_number: room,
            password: pass,
            name: Some(formatted_name),
            folio_number: clone_opt_string(&query.rsvno),
            checkin_date: ci,
            checkout_date: co,
            gtype: clone_opt_string(&query.gtype),
        };
        Ok((booking, PmsResponse { status: String::from_str("success"), message: msg }))
    }

    fn plan_checkout(query: &PmsQueryParams, active_room: bool) -> (r: Result<
        (Booking, PmsResponse),
        ErrorResponse,
    >)
        ensures
            match r {
                Ok(p) => {
                    &&& !missing_room(*query)
                    &&& active_room
                    &&& p.0.room_number@ == room_of(*query)
                    &&& p.1.status@ == "success"@
                    &&& p.1.message@ == checkout_ok_msg(room_of(*query))
                },
                Err(e) => plan_checkout_err(active_room, *query, e),
            },
    {
        let room = match required_room(&query.room) {
            Ok(r) => r,
            Err(e) => {
                return Err(e);
            },
        };
        if !active_room {
            let m = wrap_msg("room ", room.as_str(), " not found for checkout");
            return Err(ErrorResponse::NotFound(m));
        }
        let msg = wrap_msg("room ", room.as_str(), " successfully checkout");
        let booking = Booking {
            room_number: room,
            password: String::new(),
            name: None,
            folio_number: None,
            checkin_date: DateTime { year: 0, month: 1, day: 1, hour: 0, minute: 0, second: 0 },
            checkout_date: DateTime { year: 0, month: 1, day: 1, hour: 0, minute: 0, second: 0 },
            gtype: None,
        };
        Ok((booking, PmsResponse { status: String::from_str("success"), message: msg }))
    }

    fn plan_update(query: &PmsQueryParams, active_old: bool, active_room: bool, now: TimeOfDay) -> (r:
        Result<(String, Booking, PmsResponse), ErrorResponse>)
        requires
            now.wf(),
        ensures
            match r {
                Ok(p) => {
                    &&& !missing_room(*query)
                    &&& !missing_pass(*query)
                    &&& !missing_cidate(*query)
                    &&& !missing_codate(*query)
                    &&& active_old
                    &&& (room_of(*query) != old_room_of(*query) ==> !active_room)
                    &&& checkin_dt(*query, now) is Some
                    &&& checkout_dt(*query) is Ok
                    &&& p.0@ == old_room_of(*query)
                    &&& booking_derived(p.1, *query, now)
                    &&& p.2.status@ == "success"@
                    &&& p.2.message@ == (if room_of(*query) != old_room_of(*query) {
                        update_moved_msg(old_room_of(*query), room_of(*query))
                    } else {
                        update_ok_msg(room_of(*query))
                    })
                },
                Err(e) => plan_update_err(active_old, active_room, *query, now, e),
            },
    {
        let new_room = match required_room(&query.room) {
            Ok(r) => r,
            Err(e) => {
                return Err(e);
            },
        };
        let pass_raw = match required_string(&query.pass, "pass is required") {
            Ok(p) => p,
            Err(e) => {
                return Err(e);
            },
        };
        let ci_s = match required_date_string(&query.cidate, "cidate is required") {
            Ok(s) => s,
            Err(e) => {
                return Err(e);
            },
        };
        let co_s = match required_date_string(&query.codate, "codate is required") {
            Ok(s) => s,
            Err(e) => {
                return Err(e);
            },
        };
        let old_room = match &query.oldroom {
            Some(r) => r.clone(),
            None => new_room.clone(),
        };
        let is_change = !str_eq(old_room.as_str(), new_room.as_str());
        if !active_old {
            let m = wrap_msg("room ", old_room.as_str(), " not found for update");
            return Err(ErrorResponse::NotFound(m));
        }
        if is_change && active_room {
            let m = wrap_msg("target room ", new_room.as_str(), " is already in use");
            return Err(ErrorResponse::Conflict(m));
        }
        let ci = match parse_checkin_datetime(ci_s, now) {
            Ok(d) => d,
            Err(_) => {
                return Err(
                    ErrorResponse::Validation(String::from_str("invalid checkin date format")),
                );
            },
        };
        let co = match &query.cotime {
            Some(t) => parse_checkout_datetime(co_s, Some(t.as_str())),
            None => parse_checkout_datetime(co_s, None),
        };
        let co = match co {
            Ok(d) => d,
            Err(e0) => {
                let msg = match e0 {
                    DateTimeError::DateFormat => "invalid checkout date format",
                    DateTimeError::TimeFormat => "invalid checkout time format",
                };
                return Err(ErrorResponse::Validation(String::from_str(msg)));
            },
        };
        let pass = clean_password(pass_raw.as_str());
        let formatted_name = get_formatted_name(&query.name, &query.pass);
        let msg = if is_change {
            wrap_msg2(
                "room ",
                old_room.as_str(),
                " successfully updated to ",
                new_room.as_str(),
            )
        } else {
            wrap_msg("room ", new_room.as_str(), " successfully updated")
        };
        let booking = Booking {
            room_number: new_room,
            password: pass,
            name: Some(formatted_name),
            folio_number: clone_opt_string(&query.rsvno),
            checkin_date: ci,
            checkout_date: co,
            gtype: clone_opt_string(&query.gtype),
        };
        Ok((old_room, booking, PmsResponse { status: String::from_str("success"), message: msg }))
    }

    /// Decides one command without touching storage: given the occupancy
    /// oracle's answers for the requested room and for the update source
    /// room, returns the storage action to perform and the success reply,
    /// or the failure.  Callers that run the real store perform the
    /// returned action; the engine's own `process` does the same against
    /// its store.
    pub fn plan(
        query: &PmsQueryParams,
        active_room: bool,
        active_old: bool,
        now: TimeOfDay,
    ) -> (r: Result<(Action, PmsResponse), ErrorResponse>)
        requires
            now.wf(),
        ensures
            match r {
                Ok(p) => plan_ok(active_room, active_old, *query, now, p.0, p.1),
                Err(e) => plan_err(active_room, active_old, *query, now, e),
            },
    {
        proof {
            reveal_strlit("checkin");
            reveal_strlit("checkout");
            reveal_strlit("update");
            assert("checkin"@.len() == 7);
            assert("checkout"@.len() == 8);
            assert("update"@.len() == 6);
        }
        if str_eq(query.mode.as_str(), "checkin") {
            match Self::plan_checkin(query, active_room, now) {
                Ok(p) => Ok((Action::DoCheckin(p.0), p.1)),
                Err(e) => Err(e),
            }
        } else if str_eq(query.mode.as_str(), "checkout") {
            match Self::plan_checkout(query, active_room) {
                Ok(p) => Ok((Action::DoCheckout(p.0), p.1)),
                Err(e) => Err(e),
            }
        } else if str_eq(query.mode.as_str(), "update") {
            match Self::plan_update(query, active_old, active_room, now) {
                Ok(p) => Ok((Action::DoUpdate(p.0, p.1), p.2)),
                Err(e) => Err(e),
            }
        } else {
            Err(ErrorResponse::Validation(String::from_str("invalid mode")))
        }
    }

    /// Routes a decoded command by its mode, or refuses an unknown mode
    /// as a soft validation failure.
    pub fn process(&mut self, query: &PmsQueryParams, now: TimeOfDay) -> (r: Result<
        PmsResponse,
        ErrorResponse,
    >)
        requires
            old(self).repo.wf(),
            now.wf(),
        ensures
            final(self).repo.wf(),
            match r {
                Ok(resp) => process_ok(old(self).repo, final(self).repo, *query, now, resp),
                Err(e) => final(self).repo == old(self).repo && process_err(
                    old(self).repo,
                    *query,
                    now,
                    e,
                ),
            },
    {
        proof {
            reveal_strlit("checkin");
            reveal_strlit("checkout");
            reveal_strlit("update");
            assert("checkin"@.len() == 7);
            assert("checkout"@.len() == 8);
            assert("update"@.len() == 6);
        }
        let active_room = match &query.room {
            Some(rm) => self.repo.is_room_active(rm.as_str()),
            None => false,
        };
        let active_old = match &query.oldroom {
            Some(rm) => self.repo.is_room_active(rm.as_str()),
            None => active_room,
        };
        match Self::plan(query, active_room, active_old, now) {
            Err(e) => Err(e),
            Ok((action, resp)) => match action {
                Action::DoCheckin(b) => match self.repo.checkin_repo(&b) {
                    Ok(()) => Ok(resp),
                    Err(e) => Err(e),
                },
                Action::DoCheckout(b) => match self.repo.checkout_repo(&b) {
                    Ok(()) => {
                        proof {
                            let key = b.room_number@;
                            if self.repo.has_cred(key) {
                                let i = choose|i: int|
                                    0 <= i < self.repo.creds@.len()
                                        && self.repo.creds@[i].username@ == key;
                                assert(self.repo.has_room(key));
                            }
                            if self.repo.has_group(key) {
                                let i = choose|i: int|
                                    0 <= i < self.repo.groups@.len()
                                        && self.repo.groups@[i].username@ == key;
                                assert(self.repo.has_room(key));
                            }
                        }
                        Ok(resp)
                    },
                    Err(e) => Err(e),
                },
                Action::DoUpdate(o, b) => match self.repo.update_repo(o.as_str(), &b) {
                    Ok(()) => Ok(resp),
                    Err(e) => Err(e),
                },
            },
        }
    }

    /// Handles one decoded request end to end: draws the wall clock,
    /// runs the transition, and renders every outcome as the uniform
    /// reply.
    pub fn respond(&mut self, query: &PmsQueryParams) -> (resp: PmsResponse)
        requires
            old(self).repo.wf(),
        ensures
            final(self).repo.wf(),
            exists|now: TimeOfDay|
                now.wf() && #[trigger] respond_spec(
                    old(self).repo,
                    final(self).repo,
                    *query,
                    now,
                    resp,
                ),
    {
        let now = current_time_of_day();
        match self.process(query, now) {
            Ok(resp) => {
                proof {
                    assert(respond_spec(old(self).repo, self.repo, *query, now, resp));
                }
                resp
            },
            Err(e) => {
                let resp = error_to_response(&e);
                proof {
                    assert(respond_spec(old(self).repo, self.repo, *query, now, resp));
                }
                resp
            },
        }
    }
}

/// Whether the request names one of the three transitions.
pub open spec fn known_mode(q: PmsQueryParams) -> bool {
    q.mode@ == "checkin"@ || q.mode@ == "checkout"@ || q.mode@ == "update"@
}

/// What a successful `process` did, by mode.
pub open spec fn process_ok(
    s0: Storage,
    s1: Storage,
    q: PmsQueryParams,
    now: TimeOfDay,
    resp: PmsResponse,
) -> bool {
    &&& known_mode(q)
    &&& resp.status@ == "success"@
    &&& (q.mode@ == "checkin"@ ==> checkin_accepts(s0, q, now) && checkin_effect(s0, s1, q, now)
        && resp.message@ == checkin_ok_msg(room_of(q)))
    &&& (q.mode@ == "checkout"@ ==> checkout_accepts(s0, q) && checkout_effect(s0, s1, q)
        && resp.message@ == checkout_ok_msg(room_of(q)))
    &&& (q.mode@ == "update"@ ==> update_accepts(s0, q, now) && update_effect(s0, s1, q, now)
        && resp.message@ == (if room_of(q) != old_room_of(q) {
        update_moved_msg(old_room_of(q), room_of(q))
    } else {
        update_ok_msg(room_of(q))
    }))
}

/// Which failure `process` reports, by mode; an unknown mode is a soft
/// validation failure, never a crash.
pub open spec fn process_err(s0: Storage, q: PmsQueryParams, now: TimeOfDay, e: ErrorResponse) -> bool {
    if q.mode@ == "checkin"@ {
        checkin_err(s0, q, now, e)
    } else if q.mode@ == "checkout"@ {
        checkout_err(s0, q, e)
    } else if q.mode@ == "update"@ {
        update_err(s0, q, now, e)
    } else {
        e matches ErrorResponse::Validation(m) && m@ == "invalid mode"@
    }
}

/// What `respond` replies: a success reply for a carried-out transition,
/// or an error reply carrying the failure's message over an untouched
/// store.
pub open spec fn respond_spec(
    s0: Storage,
    s1: Storage,
    q: PmsQueryParams,
    now: TimeOfDay,
    resp: PmsResponse,
) -> bool {
    ||| (resp.status@ == "success"@ && process_ok(s0, s1, q, now, resp))
    ||| (resp.status@ == "error"@ && s1 == s0 && (exists|e: ErrorResponse|
        #[trigger] process_err(s0, q, now, e) && resp.message@ == e.spec_message()))
}

/// Law: checking into a vacant room with usable fields, resolvable
/// timestamps and an eligible service succeeds, refuses no error, and
/// leaves the room active.
pub proof fn lemma_checkin_vacant_room(s0: Storage, s1: Storage, q: PmsQueryParams, now: TimeOfDay)
    requires
        !missing_room(q),
        !missing_pass(q),
        !missing_cidate(q),
        !missing_codate(q),
        checkin_dt(q, now) is Some,
        checkout_dt(q) is Ok,
        s0.services@.len() > 0,
        !s0.has_room(room_of(q)),
    ensures
        checkin_accepts(s0, q, now),
        forall|e: ErrorResponse| !checkin_err(s0, q, now, e),
        checkin_effect(s0, s1, q, now) ==> s1.has_room(room_of(q)),
{
}

/// Law: checking into an active room is refused with the occupancy
/// conflict, and with nothing else, whatever the rest of the request
/// says, once its fields pass validation.
pub proof fn lemma_checkin_active_room_conflicts(
    s0: Storage,
    q: PmsQueryParams,
    now: TimeOfDay,
    e: ErrorResponse,
)
    requires
        !missing_room(q),
        !missing_pass(q),
        !missing_cidate(q),
        !missing_codate(q),
        s0.has_room(room_of(q)),
        checkin_err(s0, q, now, e),
    ensures
        !checkin_accepts(s0, q, now),
        e matches ErrorResponse::Conflict(m) && m@ == in_use_msg(room_of(q)),
{
}

/// Law: checking out a vacant room is refused as not-found, and with
/// nothing else, once the room field passes validation.
pub proof fn lemma_checkout_vacant_room_not_found(s0: Storage, q: PmsQueryParams, e: ErrorResponse)
    requires
        !missing_room(q),
        !s0.has_room(room_of(q)),
        checkout_err(s0, q, e),
    ensures
        !checkout_accepts(s0, q),
        e matches ErrorResponse::NotFound(m) && m@ == not_found_checkout_msg(room_of(q)),
{
}

/// Law: checking out an active room removes its rows from all three
/// stores and deactivates it, and a following check-in of the same room
/// with valid inputs is accepted again.
pub proof fn lemma_checkout_then_checkin(
    s0: Storage,
    s1: Storage,
    q1: PmsQueryParams,
    q2: PmsQueryParams,
    now: TimeOfDay,
)
    requires
        checkout_effect(s0, s1, q1),
        room_of(q2) == room_of(q1),
        !missing_room(q2),
        !missing_pass(q2),
        !missing_cidate(q2),
        !missing_codate(q2),
        checkin_dt(q2, now) is Some,
        checkout_dt(q2) is Ok,
        s0.services@.len() > 0,
    ensures
        !s1.has_room(room_of(q1)),
        !s1.has_cred(room_of(q1)),
        !s1.has_group(room_of(q1)),
        checkin_accepts(s1, q2, now),
{
}

/// Law: updating an active room onto a vacant target moves the stay:
/// the source key's rows are gone, the target key's rows exist with the
/// newly derived values; when source and target agree the rows are
/// rewritten in place.
pub proof fn lemma_update_moves_stay(s0: Storage, s1: Storage, q: PmsQueryParams, now: TimeOfDay)
    requires
        update_effect(s0, s1, q, now),
    ensures
        s1.has_room(room_of(q)),
        room_of(q) != old_room_of(q) ==> !s1.has_room(old_room_of(q)),
        forall|i: int|
            0 <= i < s0.rooms@.len() && s0.rooms@[i].room_number@ == old_room_of(q) ==> ({
                let row = #[trigger] s1.rooms@[i];
                &&& row.room_number@ == room_of(q)
                &&& row.password@ == derived_password(q)
                &&& row.name@ == derived_name(q)
                &&& row.checkin_date == checkin_dt(q, now)->0
                &&& row.checkout_date == checkout_dt(q)->Ok_0
            }),
        forall|i: int|
            0 <= i < s0.rooms@.len() && s0.rooms@[i].room_number@ != old_room_of(q)
                ==> #[trigger] s1.rooms@[i] == s0.rooms@[i],
{
}

/// Law: an unknown mode is a soft failure: the reply is an error whose
/// message is exactly `invalid mode`, and the store is untouched.
pub proof fn lemma_unknown_mode_is_soft_error(
    s0: Storage,
    s1: Storage,
    q: PmsQueryParams,
    now: TimeOfDay,
    resp: PmsResponse,
)
    requires
        !known_mode(q),
        respond_spec(s0, s1, q, now, resp),
    ensures
        resp.status@ == "error"@,
        resp.message@ == "invalid mode"@,
        s1 == s0,
{
    let e = choose|e: ErrorResponse|
        #[trigger] process_err(s0, q, now, e) && resp.message@ == e.spec_message();
    assert(e.spec_message() == "invalid mode"@);
}

/// Renders an engine error as the uniform error reply.
pub fn error_to_response(e: &ErrorResponse) -> (r: PmsResponse)
    ensures
        r.status@ == "error"@,
        r.message@ == e.spec_message(),
{
    PmsResponse { status: String::from_str("error"), message: e.message().clone() }
}

} // verus!
