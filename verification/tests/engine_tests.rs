use hotel_pms::{validate_request, BookingService, ErrorResponse, PmsQueryParams, Storage, TimeOfDay};

fn services() -> Vec<(i32, String)> {
    vec![(7, "guest-wifi".to_string()), (9, "spare".to_string())]
}

fn engine() -> BookingService {
    BookingService::new(Storage::new(services()))
}

fn noon() -> TimeOfDay {
    TimeOfDay { hour: 12, minute: 0, second: 0 }
}

fn checkin_query(room: &str) -> PmsQueryParams {
    PmsQueryParams {
        mode: "checkin".to_string(),
        room: Some(room.to_string()),
        oldroom: None,
        name: Some("jane doe".to_string()),
        pass: Some("Secret 42!".to_string()),
        rsvno: Some("F-100".to_string()),
        cidate: Some("25/12/2025".to_string()),
        codate: Some("26/12/2025".to_string()),
        cotime: None,
        gtype: Some("vip".to_string()),
    }
}

fn checkout_query(room: &str) -> PmsQueryParams {
    PmsQueryParams {
        mode: "checkout".to_string(),
        room: Some(room.to_string()),
        oldroom: None,
        name: None,
        pass: None,
        rsvno: None,
        cidate: None,
        codate: None,
        cotime: None,
        gtype: None,
    }
}

fn update_query(old_room: Option<&str>, room: &str) -> PmsQueryParams {
    let mut q = checkin_query(room);
    q.mode = "update".to_string();
    q.oldroom = old_room.map(|r| r.to_string());
    q
}

#[test]
fn checkin_vacant_room_succeeds_and_activates() {
    let mut svc = engine();
    assert!(!svc.repo.is_room_active("101"));
    let resp = svc.process(&checkin_query("101"), noon()).unwrap();
    assert_eq!(resp.status, "success");
    assert_eq!(resp.message, "room 101 successfully checkin");
    assert!(svc.repo.is_room_active("101"));
}

#[test]
fn checkin_writes_all_three_rows_with_derived_values() {
    let mut svc = engine();
    svc.process(&checkin_query("101"), noon()).unwrap();
    assert_eq!(svc.repo.rooms.len(), 1);
    assert_eq!(svc.repo.creds.len(), 1);
    assert_eq!(svc.repo.groups.len(), 1);
    let room = &svc.repo.rooms[0];
    assert_eq!(room.room_number, "101");
    assert_eq!(room.password, "secret 42");
    assert_eq!(room.name, "Jane Doe");
    assert_eq!(room.service_id, 7);
    assert_eq!(room.folio_number, "F-100");
    assert_eq!((room.checkin_date.year, room.checkin_date.month, room.checkin_date.day), (2025, 12, 25));
    assert_eq!((room.checkin_date.hour, room.checkin_date.minute), (12, 0));
    assert_eq!((room.checkout_date.hour, room.checkout_date.minute), (13, 0));
    let cred = &svc.repo.creds[0];
    assert_eq!(cred.username, "101");
    assert_eq!(cred.value, "secret 42");
    let group = &svc.repo.groups[0];
    assert_eq!(group.username, "101");
    assert_eq!(group.groupname, "guest-wifi");
}

#[test]
fn checkin_active_room_conflicts_and_leaves_store_unchanged() {
    let mut svc = engine();
    svc.process(&checkin_query("101"), noon()).unwrap();
    let err = svc.process(&checkin_query("101"), noon()).unwrap_err();
    match err {
        ErrorResponse::Conflict(m) => assert_eq!(m, "room 101 is in use"),
        other => panic!("expected a conflict, got {:?}", other),
    }
    assert_eq!(svc.repo.rooms.len(), 1);
    assert_eq!(svc.repo.creds.len(), 1);
    assert_eq!(svc.repo.groups.len(), 1);
}

#[test]
fn checkout_inactive_room_is_not_found() {
    let mut svc = engine();
    let err = svc.process(&checkout_query("101"), noon()).unwrap_err();
    match err {
        ErrorResponse::NotFound(m) => assert_eq!(m, "room 101 not found for checkout"),
        other => panic!("expected not-found, got {:?}", other),
    }
    assert_eq!(svc.repo.rooms.len(), 0);
}

#[test]
fn checkout_active_room_deletes_rows_and_allows_recheckin() {
    let mut svc = engine();
    svc.process(&checkin_query("101"), noon()).unwrap();
    let resp = svc.process(&checkout_query("101"), noon()).unwrap();
    assert_eq!(resp.status, "success");
    assert_eq!(resp.message, "room 101 successfully checkout");
    assert!(!svc.repo.is_room_active("101"));
    assert_eq!(svc.repo.rooms.len(), 0);
    assert_eq!(svc.repo.creds.len(), 0);
    assert_eq!(svc.repo.groups.len(), 0);
    let again = svc.process(&checkin_query("101"), noon()).unwrap();
    assert_eq!(again.status, "success");
    assert!(svc.repo.is_room_active("101"));
}

#[test]
fn update_moves_stay_to_vacant_target() {
    let mut svc = engine();
    svc.process(&checkin_query("101"), noon()).unwrap();
    let mut q = update_query(Some("101"), "202");
    q.pass = Some("NewPass 9".to_string());
    q.name = Some("bob roe".to_string());
    let resp = svc.process(&q, noon()).unwrap();
    assert_eq!(resp.message, "room 101 successfully updated to 202");
    assert!(!svc.repo.is_room_active("101"));
    assert!(svc.repo.is_room_active("202"));
    assert_eq!(svc.repo.rooms.len(), 1);
    let room = &svc.repo.rooms[0];
    assert_eq!(room.room_number, "202");
    assert_eq!(room.password, "newpass 9");
    assert_eq!(room.name, "Bob Roe");
    assert_eq!(room.service_id, 7);
    assert_eq!(room.folio_number, "F-100");
    assert_eq!(svc.repo.creds[0].username, "202");
    assert_eq!(svc.repo.creds[0].value, "newpass 9");
    assert_eq!(svc.repo.groups[0].username, "202");
    assert_eq!(svc.repo.groups[0].groupname, "guest-wifi");
}

#[test]
fn update_same_room_rewrites_in_place() {
    let mut svc = engine();
    svc.process(&checkin_query("101"), noon()).unwrap();
    let mut q = update_query(None, "101");
    q.pass = Some("Other 1".to_string());
    let resp = svc.process(&q, noon()).unwrap();
    assert_eq!(resp.message, "room 101 successfully updated");
    assert!(svc.repo.is_room_active("101"));
    assert_eq!(svc.repo.rooms.len(), 1);
    assert_eq!(svc.repo.rooms[0].password, "other 1");
}

#[test]
fn update_vacant_source_is_not_found() {
    let mut svc = engine();
    let err = svc.process(&update_query(Some("101"), "202"), noon()).unwrap_err();
    match err {
        ErrorResponse::NotFound(m) => assert_eq!(m, "room 101 not found for update"),
        other => panic!("expected not-found, got {:?}", other),
    }
}

#[test]
fn update_occupied_target_conflicts() {
    let mut svc = engine();
    svc.process(&checkin_query("101"), noon()).unwrap();
    svc.process(&checkin_query("202"), noon()).unwrap();
    let err = svc.process(&update_query(Some("101"), "202"), noon()).unwrap_err();
    match err {
        ErrorResponse::Conflict(m) => assert_eq!(m, "target room 202 is already in use"),
        other => panic!("expected a conflict, got {:?}", other),
    }
    assert!(svc.repo.is_room_active("101"));
    assert!(svc.repo.is_room_active("202"));
}

#[test]
fn unknown_mode_is_soft_error() {
    let mut svc = engine();
    let mut q = checkin_query("101");
    q.mode = "foo".to_string();
    let resp = svc.respond(&q);
    assert_eq!(resp.status, "error");
    assert!(resp.message.contains("invalid mode"));
    assert_eq!(resp.message, "invalid mode");
    assert_eq!(svc.repo.rooms.len(), 0);
}

#[test]
fn missing_fields_are_validation_errors() {
    let mut svc = engine();
    let mut q = checkin_query("101");
    q.room = Some("".to_string());
    match svc.process(&q, noon()).unwrap_err() {
        ErrorResponse::Validation(m) => assert_eq!(m, "room is required"),
        other => panic!("unexpected {:?}", other),
    }
    let mut q = checkin_query("101");
    q.room = Some("   ".to_string());
    match svc.process(&q, noon()).unwrap_err() {
        ErrorResponse::Validation(m) => assert_eq!(m, "room is required"),
        other => panic!("unexpected {:?}", other),
    }
    let mut q = checkin_query("101");
    q.pass = None;
    match svc.process(&q, noon()).unwrap_err() {
        ErrorResponse::Validation(m) => assert_eq!(m, "pass is required"),
        other => panic!("unexpected {:?}", other),
    }
    let mut q = checkin_query("101");
    q.cidate = Some("   ".to_string());
    match svc.process(&q, noon()).unwrap_err() {
        ErrorResponse::Validation(m) => assert_eq!(m, "cidate is required"),
        other => panic!("unexpected {:?}", other),
    }
    let mut q = checkin_query("101");
    q.codate = None;
    match svc.process(&q, noon()).unwrap_err() {
        ErrorResponse::Validation(m) => assert_eq!(m, "codate is required"),
        other => panic!("unexpected {:?}", other),
    }
}

#[test]
fn bad_dates_are_validation_errors() {
    let mut svc = engine();
    let mut q = checkin_query("101");
    q.cidate = Some("2025-12-25".to_string());
    match svc.process(&q, noon()).unwrap_err() {
        ErrorResponse::Validation(m) => assert_eq!(m, "invalid checkin date format"),
        other => panic!("unexpected {:?}", other),
    }
    let mut q = checkin_query("101");
    q.codate = Some("12/31/2025".to_string());
    match svc.process(&q, noon()).unwrap_err() {
        ErrorResponse::Validation(m) => assert_eq!(m, "invalid checkout date format"),
        other => panic!("unexpected {:?}", other),
    }
    let mut q = checkin_query("101");
    q.cotime = Some("late".to_string());
    match svc.process(&q, noon()).unwrap_err() {
        ErrorResponse::Validation(m) => assert_eq!(m, "invalid checkout time format"),
        other => panic!("unexpected {:?}", other),
    }
}

#[test]
fn validate_request_decides_field_failures_alone() {
    match validate_request(&checkout_query("   ")).unwrap_err() {
        ErrorResponse::Validation(m) => assert_eq!(m, "room is required"),
        other => panic!("unexpected {:?}", other),
    }
    let mut q = checkin_query("101");
    q.mode = "foo".to_string();
    match validate_request(&q).unwrap_err() {
        ErrorResponse::Validation(m) => assert_eq!(m, "invalid mode"),
        other => panic!("unexpected {:?}", other),
    }
    assert!(validate_request(&checkin_query("101")).is_ok());
    assert!(validate_request(&checkout_query("101")).is_ok());
}

#[test]
fn checkin_without_eligible_service_is_not_found() {
    let mut svc = BookingService::new(Storage::new(Vec::new()));
    let err = svc.process(&checkin_query("101"), noon()).unwrap_err();
    match err {
        ErrorResponse::NotFound(m) => assert_eq!(m, "No active hotel service found"),
        other => panic!("expected not-found, got {:?}", other),
    }
    assert_eq!(svc.repo.rooms.len(), 0);
}

#[test]
fn respond_uses_wall_clock_for_date_only_checkin() {
    let mut svc = engine();
    let resp = svc.respond(&checkin_query("303"));
    assert_eq!(resp.status, "success");
    assert!(svc.repo.is_room_active("303"));
    let dt = svc.repo.rooms[0].checkin_date;
    assert_eq!((dt.year, dt.month, dt.day), (2025, 12, 25));
    assert!(dt.hour < 24 && dt.minute < 60 && dt.second < 60);
}

#[test]
fn first_eligible_service_governs_binding() {
    let mut svc = engine();
    let listed = svc.repo.get_cron_hotel_service();
    assert_eq!(listed.len(), 2);
    assert_eq!(listed[0], (7, "guest-wifi".to_string()));
    svc.process(&checkin_query("101"), noon()).unwrap();
    assert_eq!(svc.repo.rooms[0].service_id, 7);
    assert_eq!(svc.repo.groups[0].groupname, "guest-wifi");
}
