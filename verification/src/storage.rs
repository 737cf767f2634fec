use vstd::prelude::*;

use crate::datetime_utils::DateTime;
use crate::entities::Booking;
use crate::errors::{in_use_msg, no_service_msg, wrap_msg, ErrorResponse};
use crate::string_utils::str_eq;

verus! {

/// One row of the room-status store; its presence is what makes a room
/// occupied.
#[derive(Debug)]
pub struct RoomRow {
    pub room_number: String,
    pub password: String,
    pub name: String,
    pub service_id: i32,
    pub folio_number: String,
    pub checkin_date: DateTime,
    pub checkout_date: DateTime,
}

/// One row of the credential store: a room user name bound to its
/// cleartext-equivalent passcode.
#[derive(Debug)]
pub struct CredRow {
    pub username: String,
    pub value: String,
}

/// One row of the group-membership store: a room user name bound to its
/// guest class for downstream access control.
#[derive(Debug)]
pub struct GroupRow {
    pub username: String,
    pub groupname: String,
}

/// Whether some room-status row carries this room number.
pub open spec fn rooms_have(rows: Seq<RoomRow>, u: Seq<char>) -> bool {
    exists|i: int| 0 <= i < rows.len() && rows[i].room_number@ == u
}

/// Whether some credential row carries this user name.
pub open spec fn creds_have(rows: Seq<CredRow>, u: Seq<char>) -> bool {
    exists|i: int| 0 <= i < rows.len() && rows[i].username@ == u
}

/// Whether some group-membership row carries this user name.
pub open spec fn groups_have(rows: Seq<GroupRow>, u: Seq<char>) -> bool {
    exists|i: int| 0 <= i < rows.len() && rows[i].username@ == u
}

pub open spec fn rooms_unique(rows: Seq<RoomRow>) -> bool {
    forall|i: int, j: int|
        0 <= i < j < rows.len() ==> rows[i].room_number@ != rows[j].room_number@
}

pub open spec fn creds_unique(rows: Seq<CredRow>) -> bool {
    forall|i: int, j: int| 0 <= i < j < rows.len() ==> rows[i].username@ != rows[j].username@
}

pub open spec fn groups_unique(rows: Seq<GroupRow>) -> bool {
    forall|i: int, j: int| 0 <= i < j < rows.len() ==> rows[i].username@ != rows[j].username@
}

/// The room-status rows that do not carry this room number, in order.
pub open spec fn rooms_without(rows: Seq<RoomRow>, key: Seq<char>) -> Seq<RoomRow>
    decreases rows.len(),
{
    if rows.len() == 0 {
        Seq::empty()
    } else {
        let rest = rooms_without(rows.drop_last(), key);
        if rows.last().room_number@ != key {
            rest.push(rows.last())
        } else {
            rest
        }
    }
}

/// The credential rows that do not carry this user name, in order.
pub open spec fn creds_without(rows: Seq<CredRow>, key: Seq<char>) -> Seq<CredRow>
    decreases rows.len(),
{
    if rows.len() == 0 {
        Seq::empty()
    } else {
        let rest = creds_without(rows.drop_last(), key);
        if rows.last().username@ != key {
            rest.push(rows.last())
        } else {
            rest
        }
    }
}

/// The group-membership rows that do not carry this user name, in order.
pub open spec fn groups_without(rows: Seq<GroupRow>, key: Seq<char>) -> Seq<GroupRow>
    decreases rows.len(),
{
    if rows.len() == 0 {
        Seq::empty()
    } else {
        let rest = groups_without(rows.drop_last(), key);
        if rows.last().username@ != key {
            rest.push(rows.last())
        } else {
            rest
        }
    }
}

proof fn lemma_rooms_without_props(rows: Seq<RoomRow>, key: Seq<char>)
    ensures
        forall|u: Seq<char>|
            #[trigger] rooms_have(rooms_without(rows, key), u) == (rooms_have(rows, u) && u
                != key),
        rooms_unique(rows) ==> rooms_unique(rooms_without(rows, key)),
    decreases rows.len(),
{
    if rows.len() == 0 {
    } else {
        let dl = rows.drop_last();
        lemma_rooms_without_props(dl, key);
        let rw = rooms_without(rows, key);
        let rwd = rooms_without(dl, key);
        assert forall|u: Seq<char>|
            #[trigger] rooms_have(rw, u) == (rooms_have(rows, u) && u != key) by {
            if rooms_have(rw, u) {
                let i = choose|i: int| 0 <= i < rw.len() && rw[i].room_number@ == u;
                if rows.last().room_number@ != key && i == rw.len() - 1 {
                    assert(rows[rows.len() - 1].room_number@ == u);
                } else {
                    assert(rooms_have(rwd, u));
                    let m = choose|m: int| 0 <= m < dl.len() && dl[m].room_number@ == u;
                    assert(rows[m].room_number@ == u);
                }
            }
            if rooms_have(rows, u) && u != key {
                let i = choose|i: int| 0 <= i < rows.len() && rows[i].room_number@ == u;
                if i == rows.len() - 1 {
                    assert(rw[rw.len() - 1].room_number@ == u);
                } else {
                    assert(dl[i].room_number@ == u);
                    assert(rooms_have(rwd, u));
                    let m = choose|m: int| 0 <= m < rwd.len() && rwd[m].room_number@ == u;
                    assert(rw[m].room_number@ == u);
                }
            }
        }
        if rooms_unique(rows) {
            assert(rooms_unique(dl));
            if rows.last().room_number@ != key {
                assert forall|i: int, j: int| 0 <= i < j < rw.len() implies rw[i].room_number@
                    != rw[j].room_number@ by {
                    if j == rw.len() - 1 {
                        assert(rooms_have(rwd, rwd[i].room_number@));
                        let m = choose|m: int|
                            0 <= m < dl.len() && dl[m].room_number@ == rwd[i].room_number@;
                        assert(rows[m].room_number@ != rows[rows.len() - 1].room_number@);
                    }
                }
            }
        }
    }
}

proof fn lemma_creds_without_props(rows: Seq<CredRow>, key: Seq<char>)
    ensures
        forall|u: Seq<char>|
            #[trigger] creds_have(creds_without(rows, key), u) == (creds_have(rows, u) && u
                != key),
        creds_unique(rows) ==> creds_unique(creds_without(rows, key)),
    decreases rows.len(),
{
    if rows.len() == 0 {
    } else {
        let dl = rows.drop_last();
        lemma_creds_without_props(dl, key);
        let rw = creds_without(rows, key);
        let rwd = creds_without(dl, key);
        assert forall|u: Seq<char>|
            #[trigger] creds_have(rw, u) == (creds_have(rows, u) && u != key) by {
            if creds_have(rw, u) {
                let i = choose|i: int| 0 <= i < rw.len() && rw[i].username@ == u;
                if rows.last().username@ != key && i == rw.len() - 1 {
                    assert(rows[rows.len() - 1].username@ == u);
                } else {
                    assert(creds_have(rwd, u));
                    let m = choose|m: int| 0 <= m < dl.len() && dl[m].username@ == u;
                    assert(rows[m].username@ == u);
                }
            }
            if creds_have(rows, u) && u != key {
                let i = choose|i: int| 0 <= i < rows.len() && rows[i].username@ == u;
                if i == rows.len() - 1 {
                    assert(rw[rw.len() - 1].username@ == u);
                } else {
                    assert(dl[i].username@ == u);
                    assert(creds_have(rwd, u));
                    let m = choose|m: int| 0 <= m < rwd.len() && rwd[m].username@ == u;
                    assert(rw[m].username@ == u);
                }
            }
        }
        if creds_unique(rows) {
            assert(creds_unique(dl));
            if rows.last().username@ != key {
                assert forall|i: int, j: int| 0 <= i < j < rw.len() implies rw[i].username@
                    != rw[j].username@ by {
                    if j == rw.len() - 1 {
                        assert(creds_have(rwd, rwd[i].username@));
                        let m = choose|m: int|
                            0 <= m < dl.len() && dl[m].username@ == rwd[i].username@;
                        assert(rows[m].username@ != rows[rows.len() - 1].username@);
                    }
                }
            }
        }
    }
}

proof fn lemma_groups_without_props(rows: Seq<GroupRow>, key: Seq<char>)
    ensures
        forall|u: Seq<char>|
            #[trigger] groups_have(groups_without(rows, key), u) == (groups_have(rows, u) && u
                != key),
        groups_unique(rows) ==> groups_unique(groups_without(rows, key)),
    decreases rows.len(),
{
    if rows.len() == 0 {
    } else {
        let dl = rows.drop_last();
        lemma_groups_without_props(dl, key);
        let rw = groups_without(rows, key);
        let rwd = groups_without(dl, key);
        assert forall|u: Seq<char>|
            #[trigger] groups_have(rw, u) == (groups_have(rows, u) && u != key) by {
            if groups_have(rw, u) {
                let i = choose|i: int| 0 <= i < rw.len() && rw[i].username@ == u;
                if rows.last().username@ != key && i == rw.len() - 1 {
                    assert(rows[rows.len() - 1].username@ == u);
                } else {
                    assert(groups_have(rwd, u));
                    let m = choose|m: int| 0 <= m < dl.len() && dl[m].username@ == u;
                    assert(rows[m].username@ == u);
                }
            }
            if groups_have(rows, u) && u != key {
                let i = choose|i: int| 0 <= i < rows.len() && rows[i].username@ == u;
                if i == rows.len() - 1 {
                    assert(rw[rw.len() - 1].username@ == u);
                } else {
                    assert(dl[i].username@ == u);
                    assert(groups_have(rwd, u));
                    let m = choose|m: int| 0 <= m < rwd.len() && rwd[m].username@ == u;
                    assert(rw[m].username@ == u);
                }
            }
        }
        if groups_unique(rows) {
            assert(groups_unique(dl));
            if rows.last().username@ != key {
                assert forall|i: int, j: int| 0 <= i < j < rw.len() implies rw[i].username@
                    != rw[j].username@ by {
                    if j == rw.len() - 1 {
                        assert(groups_have(rwd, rwd[i].username@));
                        let m = choose|m: int|
                            0 <= m < dl.len() && dl[m].username@ == rwd[i].username@;
                        assert(rows[m].username@ != rows[rows.len() - 1].username@);
                    }
                }
            }
        }
    }
}

proof fn lemma_update_preserves_wf(s0: Storage, s1: Storage, k: Seq<char>, nk: Seq<char>, b: Booking)
    requires
        s0.wf(),
        rooms_have(s0.rooms@, k),
        nk == k || !rooms_have(s0.rooms@, nk),
        b.room_number@ == nk,
        s1.rooms@.len() == s0.rooms@.len(),
        s1.creds@.len() == s0.creds@.len(),
        s1.groups@.len() == s0.groups@.len(),
        forall|i: int|
            0 <= i < s0.rooms@.len() && s0.rooms@[i].room_number@ == k ==> room_row_updated(
                s0.rooms@[i],
                #[trigger] s1.rooms@[i],
                b,
            ),
        forall|i: int|
            0 <= i < s0.rooms@.len() && s0.rooms@[i].room_number@ != k ==> #[trigger] s1.rooms@[i]
                == s0.rooms@[i],
        forall|i: int|
            0 <= i < s0.creds@.len() && s0.creds@[i].username@ == k ==> cred_row_updated(
                #[trigger] s1.creds@[i],
                b,
            ),
        forall|i: int|
            0 <= i < s0.creds@.len() && s0.creds@[i].username@ != k ==> #[trigger] s1.creds@[i]
                == s0.creds@[i],
        forall|i: int|
            0 <= i < s0.groups@.len() && s0.groups@[i].username@ == k ==> group_row_updated(
                s0.groups@[i],
                #[trigger] s1.groups@[i],
                b,
            ),
        forall|i: int|
            0 <= i < s0.groups@.len() && s0.groups@[i].username@ != k ==> #[trigger] s1.groups@[i]
                == s0.groups@[i],
    ensures
        s1.wf(),
        rooms_have(s1.rooms@, nk),
        nk != k ==> !rooms_have(s1.rooms@, k),
        forall|u: Seq<char>|
            u != k && u != nk ==> rooms_have(s1.rooms@, u) == rooms_have(s0.rooms@, u),
{
    assert forall|i: int| 0 <= i < s1.rooms@.len() implies #[trigger] s1.rooms@[i].room_number@
        == (if s0.rooms@[i].room_number@ == k {
        nk
    } else {
        s0.rooms@[i].room_number@
    }) by {
        assert(0 <= i < s0.rooms@.len());
    }
    assert forall|i: int| 0 <= i < s1.creds@.len() implies #[trigger] s1.creds@[i].username@ == (
    if s0.creds@[i].username@ == k {
        nk
    } else {
        s0.creds@[i].username@
    }) by {
        assert(0 <= i < s0.creds@.len());
    }
    assert forall|i: int| 0 <= i < s1.groups@.len() implies #[trigger] s1.groups@[i].username@ == (
    if s0.groups@[i].username@ == k {
        nk
    } else {
        s0.groups@[i].username@
    }) by {
        assert(0 <= i < s0.groups@.len());
    }
    assert forall|i: int, j: int| 0 <= i < j < s1.rooms@.len() implies s1.rooms@[i].room_number@
        != s1.rooms@[j].room_number@ by {
        let ui = s0.rooms@[i].room_number@;
        let uj = s0.rooms@[j].room_number@;
        assert(ui != uj);
        if ui == k && nk != k {
            assert(uj != nk);
        }
        if uj == k && nk != k {
            assert(ui != nk);
        }
    }
    assert forall|i: int, j: int| 0 <= i < j < s1.creds@.len() implies s1.creds@[i].username@
        != s1.creds@[j].username@ by {
        let ui = s0.creds@[i].username@;
        let uj = s0.creds@[j].username@;
        assert(ui != uj);
        if ui == k && nk != k {
            if uj == nk {
                assert(rooms_have(s0.rooms@, uj));
            }
        }
        if uj == k && nk != k {
            if ui == nk {
                assert(rooms_have(s0.rooms@, ui));
            }
        }
    }
    assert forall|i: int, j: int| 0 <= i < j < s1.groups@.len() implies s1.groups@[i].username@
        != s1.groups@[j].username@ by {
        let ui = s0.groups@[i].username@;
        let uj = s0.groups@[j].username@;
        assert(ui != uj);
        if ui == k && nk != k {
            if uj == nk {
                assert(rooms_have(s0.rooms@, uj));
            }
        }
        if uj == k && nk != k {
            if ui == nk {
                assert(rooms_have(s0.rooms@, ui));
            }
        }
    }
    let m0 = choose|m: int| 0 <= m < s0.rooms@.len() && s0.rooms@[m].room_number@ == k;
    assert(s1.rooms@[m0].room_number@ == nk);
    assert(rooms_have(s1.rooms@, nk));
    if nk != k {
        assert forall|i: int| 0 <= i < s1.rooms@.len() implies s1.rooms@[i].room_number@ != k by {}
    }
    assert forall|u: Seq<char>| u != k && u != nk implies rooms_have(s1.rooms@, u) == rooms_have(
        s0.rooms@,
        u,
    ) by {
        if rooms_have(s1.rooms@, u) {
            let m = choose|m: int| 0 <= m < s1.rooms@.len() && s1.rooms@[m].room_number@ == u;
            assert(s0.rooms@[m].room_number@ == u);
        }
        if rooms_have(s0.rooms@, u) {
            let m = choose|m: int| 0 <= m < s0.rooms@.len() && s0.rooms@[m].room_number@ == u;
            assert(s1.rooms@[m].room_number@ == u);
        }
    }
    assert forall|i: int| 0 <= i < s1.rooms@.len() implies creds_have(
        s1.creds@,
        #[trigger] s1.rooms@[i].room_number@,
    ) && groups_have(s1.groups@, s1.rooms@[i].room_number@) by {
        let u0 = s0.rooms@[i].room_number@;
        assert(creds_have(s0.creds@, u0) && groups_have(s0.groups@, u0));
        let mc = choose|m: int| 0 <= m < s0.creds@.len() && s0.creds@[m].username@ == u0;
        let mg = choose|m: int| 0 <= m < s0.groups@.len() && s0.groups@[m].username@ == u0;
        if u0 == k {
            assert(s1.creds@[mc].username@ == nk);
            assert(s1.groups@[mg].username@ == nk);
        } else {
            assert(s1.creds@[mc].username@ == u0);
            assert(s1.groups@[mg].username@ == u0);
        }
    }
    assert forall|i: int| 0 <= i < s1.creds@.len() implies rooms_have(
        s1.rooms@,
        #[trigger] s1.creds@[i].username@,
    ) by {
        let u0 = s0.creds@[i].username@;
        assert(rooms_have(s0.rooms@, u0));
        let m = choose|m: int| 0 <= m < s0.rooms@.len() && s0.rooms@[m].room_number@ == u0;
        if u0 == k {
            assert(s1.rooms@[m].room_number@ == nk);
        } else {
            assert(s1.rooms@[m].room_number@ == u0);
        }
    }
    assert forall|i: int| 0 <= i < s1.groups@.len() implies rooms_have(
        s1.rooms@,
        #[trigger] s1.groups@[i].username@,
    ) by {
        let u0 = s0.groups@[i].username@;
        assert(rooms_have(s0.rooms@, u0));
        let m = choose|m: int| 0 <= m < s0.rooms@.len() && s0.rooms@[m].room_number@ == u0;
        if u0 == k {
            assert(s1.rooms@[m].room_number@ == nk);
        } else {
            assert(s1.rooms@[m].room_number@ == u0);
        }
    }
}

/// How a check-in materializes a booking as a room-status row.
pub open spec fn room_row_matches(row: RoomRow, b: Booking, service_id: i32) -> bool {
    &&& row.room_number@ == b.room_number@
    &&& row.password@ == b.password@
    &&& row.name@ == (match b.name {
        Some(n) => n@,
        None => Seq::<char>::empty(),
    })
    &&& row.service_id == service_id
    &&& row.folio_number@ == (match b.folio_number {
        Some(f) => f@,
        None => Seq::<char>::empty(),
    })
    &&& row.checkin_date == b.checkin_date
    &&& row.checkout_date == b.checkout_date
}

/// How a check-in materializes a booking as a credential row.
pub open spec fn cred_row_matches(row: CredRow, b: Booking) -> bool {
    row.username@ == b.room_number@ && row.value@ == b.password@
}

/// How a check-in materializes a group binding.
pub open spec fn group_row_matches(row: GroupRow, room: Seq<char>, groupname: Seq<char>) -> bool {
    row.username@ == room && row.groupname@ == groupname
}

/// How an update rewrites the matched room-status row: the stay's fields
/// are replaced; the service binding and the folio number are kept.
pub open spec fn room_row_updated(old_row: RoomRow, new_row: RoomRow, b: Booking) -> bool {
    &&& new_row.room_number@ == b.room_number@
    &&& new_row.password@ == b.password@
    &&& new_row.name@ == (match b.name {
        Some(n) => n@,
        None => Seq::<char>::empty(),
    })
    &&& new_row.service_id == old_row.service_id
    &&& new_row.folio_number@ == old_row.folio_number@
    &&& new_row.checkin_date == b.checkin_date
    &&& new_row.checkout_date == b.checkout_date
}

/// How an update rewrites the matched credential row.
pub open spec fn cred_row_updated(new_row: CredRow, b: Booking) -> bool {
    new_row.username@ == b.room_number@ && new_row.value@ == b.password@
}

/// How an update rewrites the matched group-membership row: rekeyed, the
/// group binding kept.
pub open spec fn group_row_updated(old_row: GroupRow, new_row: GroupRow, b: Booking) -> bool {
    new_row.username@ == b.room_number@ && new_row.groupname@ == old_row.groupname@
}

fn clone_room_row(r: &RoomRow) -> (c: RoomRow)
    ensures
        c == *r,
{
    RoomRow {
        room_number: r.room_number.clone(),
        password: r.password.clone(),
        name: r.name.clone(),
        service_id: r.service_id,
        folio_number: r.folio_number.clone(),
        checkin_date: r.checkin_date,
        checkout_date: r.checkout_date,
    }
}

fn clone_cred_row(r: &CredRow) -> (c: CredRow)
    ensures
        c == *r,
{
    CredRow { username: r.username.clone(), value: r.value.clone() }
}

fn clone_group_row(r: &GroupRow) -> (c: GroupRow)
    ensures
        c == *r,
{
    GroupRow { username: r.username.clone(), groupname: r.groupname.clone() }
}

/// The authoritative store: the three row sets that materialize
/// occupancy records, and the service-assignment catalog whose first
/// entry governs the group binding written at check-in.
#[derive(Debug)]
pub struct Storage {
    pub rooms: Vec<RoomRow>,
    pub creds: Vec<CredRow>,
    pub groups: Vec<GroupRow>,
    pub services: Vec<(i32, String)>,
}

impl Storage {
    pub open spec fn has_room(self, u: Seq<char>) -> bool {
        rooms_have(self.rooms@, u)
    }

    pub open spec fn has_cred(self, u: Seq<char>) -> bool {
        creds_have(self.creds@, u)
    }

    pub open spec fn has_group(self, u: Seq<char>) -> bool {
        groups_have(self.groups@, u)
    }

    /// The store keeps occupancy and credential state from diverging:
    /// room numbers are unique in each table, and the three tables hold
    /// rows for exactly the same room numbers.
    pub open spec fn wf(self) -> bool {
        &&& rooms_unique(self.rooms@)
        &&& creds_unique(self.creds@)
        &&& groups_unique(self.groups@)
        &&& forall|i: int|
            0 <= i < self.rooms@.len() ==> creds_have(
                self.creds@,
                #[trigger] self.rooms@[i].room_number@,
            ) && groups_have(self.groups@, self.rooms@[i].room_number@)
        &&& forall|i: int|
            0 <= i < self.creds@.len() ==> rooms_have(
                self.rooms@,
                #[trigger] self.creds@[i].username@,
            )
        &&& forall|i: int|
            0 <= i < self.groups@.len() ==> rooms_have(
                self.rooms@,
                #[trigger] self.groups@[i].username@,
            )
    }

    /// Builds an empty store over the given service catalog.
    pub fn new(services: Vec<(i32, String)>) -> (s: Storage)
        ensures
            s.wf(),
            s.rooms@.len() == 0,
            s.creds@.len() == 0,
            s.groups@.len() == 0,
            s.services == services,
    {
        Storage { rooms: Vec::new(), creds: Vec::new(), groups: Vec::new(), services }
    }

    /// The occupancy oracle: whether the room-status store holds a row
    /// for this room.
    pub fn is_room_active(&self, room_number: &str) -> (r: bool)
        ensures
            r == self.has_room(room_number@),
    {
        let n = self.rooms.len();
        let mut i: usize = 0;
        while i < n
            invariant
                n == self.rooms@.len(),
                i <= n,
                forall|k: int| 0 <= k < i ==> self.rooms@[k].room_number@ != room_number@,
            decreases n - i,
        {
            if str_eq(self.rooms[i].room_number.as_str(), room_number) {
                return true;
            }
            i = i + 1;
        }
        false
    }

    /// Commits a check-in as one atomic unit: inserts the room-status,
    /// credential and group-membership rows together, or nothing at all.
    /// The insert is conditional on the room key being absent, which is
    /// the storage-level uniqueness constraint.
    pub fn checkin_repo(&mut self, booking: &Booking) -> (r: Result<(), ErrorResponse>)
        requires
            old(self).wf(),
        ensures
            final(self).wf(),
            final(self).services@ == old(self).services@,
            match r {
                Ok(()) => {
                    &&& old(self).services@.len() > 0
                    &&& !old(self).has_room(booking.room_number@)
                    &&& final(self).rooms@ == old(self).rooms@.push(final(self).rooms@.last())
                    &&& room_row_matches(
                        final(self).rooms@.last(),
                        *booking,
                        old(self).services@[0].0,
                    )
                    &&& final(self).creds@ == old(self).creds@.push(final(self).creds@.last())
                    &&& cred_row_matches(final(self).creds@.last(), *booking)
                    &&& final(self).groups@ == old(self).groups@.push(final(self).groups@.last())
                    &&& group_row_matches(
                        final(self).groups@.last(),
                        booking.room_number@,
                        old(self).services@[0].1@,
                    )
                    &&& final(self).has_room(booking.room_number@)
                },
                Err(e) => {
                    &&& *final(self) == *old(self)
                    &&& (old(self).services@.len() == 0 ==> (e matches ErrorResponse::NotFound(m)
                        && m@ == no_service_msg()))
                    &&& (old(self).services@.len() > 0 ==> old(self).has_room(
                        booking.room_number@,
                    ) && (e matches ErrorResponse::Conflict(m) && m@ == in_use_msg(
                        booking.room_number@,
                    )))
                },
            },
    {
        if self.services.len() == 0 {
            return Err(
                ErrorResponse::NotFound(String::from_str("No active hotel service found")),
            );
        }
        if self.is_room_active(booking.room_number.as_str()) {
            let m = wrap_msg("room ", booking.room_number.as_str(), " is in use");
            return Err(ErrorResponse::Conflict(m));
        }
        let sid = self.services[0].0;
        let sname = self.services[0].1.clone();
        let name_s = match &booking.name {
            Some(n) => n.clone(),
            None => String::new(),
        };
        let folio_s = match &booking.folio_number {
            Some(f) => f.clone(),
            None => String::new(),
        };
        self.rooms.push(
            RoomRow {
                room_number: booking.room_number.clone(),
                password: booking.password.clone(),
                name: name_s,
                service_id: sid,
                folio_number: folio_s,
                checkin_date: booking.checkin_date,
                checkout_date: booking.checkout_date,
            },
        );
        self.creds.push(
            CredRow { username: booking.room_number.clone(), value: booking.password.clone() },
        );
        self.groups.push(GroupRow { username: booking.room_number.clone(), groupname: sname });
        proof {
            let key = booking.room_number@;
            let s0 = *old(self);
            assert(!rooms_have(s0.rooms@, key));
            if creds_have(s0.creds@, key) {
                let i = choose|i: int| 0 <= i < s0.creds@.len() && s0.creds@[i].username@ == key;
                assert(rooms_have(s0.rooms@, key));
            }
            if groups_have(s0.groups@, key) {
                let i = choose|i: int| 0 <= i < s0.groups@.len() && s0.groups@[i].username@ == key;
                assert(rooms_have(s0.rooms@, key));
            }
            let rl = self.rooms@.len() - 1;
            let cl = self.creds@.len() - 1;
            let gl = self.groups@.len() - 1;
            assert(self.rooms@[rl].room_number@ == key);
            assert(self.creds@[cl].username@ == key);
            assert(self.groups@[gl].username@ == key);
            assert forall|i: int, j: int| 0 <= i < j < self.rooms@.len() implies self.rooms@[i].room_number@
                != self.rooms@[j].room_number@ by {
                if j == rl {
                    assert(self.rooms@[i] == s0.rooms@[i]);
                }
            }
            assert forall|i: int, j: int| 0 <= i < j < self.creds@.len() implies self.creds@[i].username@
                != self.creds@[j].username@ by {
                if j == cl {
                    assert(self.creds@[i] == s0.creds@[i]);
                }
            }
            assert forall|i: int, j: int| 0 <= i < j < self.groups@.len() implies self.groups@[i].username@
                != self.groups@[j].username@ by {
                if j == gl {
                    assert(self.groups@[i] == s0.groups@[i]);
                }
            }
            assert forall|i: int| 0 <= i < self.rooms@.len() implies creds_have(
                self.creds@,
                #[trigger] self.rooms@[i].room_number@,
            ) && groups_have(self.groups@, self.rooms@[i].room_number@) by {
                if i < rl {
                    let u = s0.rooms@[i].room_number@;
                    let m = choose|m: int|
                        0 <= m < s0.creds@.len() && s0.creds@[m].username@ == u;
                    assert(self.creds@[m].username@ == u);
                    let g = choose|g: int|
                        0 <= g < s0.groups@.len() && s0.groups@[g].username@ == u;
                    assert(self.groups@[g].username@ == u);
                } else {
                    assert(self.creds@[cl].username@ == key);
                    assert(self.groups@[gl].username@ == key);
                }
            }
            assert forall|i: int| 0 <= i < self.creds@.len() implies rooms_have(
                self.rooms@,
                #[trigger] self.creds@[i].username@,
            ) by {
                if i < cl {
                    let u = s0.creds@[i].username@;
                    let m = choose|m: int|
                        0 <= m < s0.rooms@.len() && s0.rooms@[m].room_number@ == u;
                    assert(self.rooms@[m].room_number@ == u);
                } else {
                    assert(self.rooms@[rl].room_number@ == key);
                }
            }
            assert forall|i: int| 0 <= i < self.groups@.len() implies rooms_have(
                self.rooms@,
                #[trigger] self.groups@[i].username@,
            ) by {
                if i < gl {
                    let u = s0.groups@[i].username@;
                    let m = choose|m: int|
                        0 <= m < s0.rooms@.len() && s0.rooms@[m].room_number@ == u;
                    assert(self.rooms@[m].room_number@ == u);
                } else {
                    assert(self.rooms@[rl].room_number@ == key);
                }
            }
        }
        Ok(())
    }

    /// Commits a check-out as one atomic unit: deletes every credential,
    /// group-membership and room-status row of the room together.
    /// Deleting the rows of a vacant room is a no-op, as key-based row
    /// deletion is.
    pub fn checkout_repo(&mut self, booking: &Booking) -> (r: Result<(), ErrorResponse>)
        requires
            old(self).wf(),
        ensures
            final(self).wf(),
            r is Ok,
            final(self).rooms@ == rooms_without(old(self).rooms@, booking.room_number@),
            final(self).creds@ == creds_without(old(self).creds@, booking.room_number@),
            final(self).groups@ == groups_without(old(self).groups@, booking.room_number@),
            final(self).services@ == old(self).services@,
            !final(self).has_room(booking.room_number@),
            forall|u: Seq<char>|
                final(self).has_room(u) == (old(self).has_room(u) && u != booking.room_number@),
    {
        let n = self.rooms.len();
        let mut new_rooms: Vec<RoomRow> = Vec::new();
        let mut i: usize = 0;
        proof {
            assert(self.rooms@.take(0) =~= Seq::<RoomRow>::empty());
        }
        while i < n
            invariant
                n == self.rooms@.len(),
                i <= n,
                new_rooms@ == rooms_without(self.rooms@.take(i as int), booking.room_number@),
            decreases n - i,
        {
            let row = &self.rooms[i];
            if !str_eq(row.room_number.as_str(), booking.room_number.as_str()) {
                new_rooms.push(clone_room_row(row));
            }
            proof {
                assert(self.rooms@.take(i + 1).drop_last() =~= self.rooms@.take(i as int));
                assert(self.rooms@.take(i + 1).last() == self.rooms@[i as int]);
            }
            i = i + 1;
        }
        let nc = self.creds.len();
        let mut new_creds: Vec<CredRow> = Vec::new();
        let mut j: usize = 0;
        proof {
            assert(self.creds@.take(0) =~= Seq::<CredRow>::empty());
        }
        while j < nc
            invariant
                nc == self.creds@.len(),
                j <= nc,
                new_creds@ == creds_without(self.creds@.take(j as int), booking.room_number@),
            decreases nc - j,
        {
            let row = &self.creds[j];
            if !str_eq(row.username.as_str(), booking.room_number.as_str()) {
                new_creds.push(clone_cred_row(row));
            }
            proof {
                assert(self.creds@.take(j + 1).drop_last() =~= self.creds@.take(j as int));
                assert(self.creds@.take(j + 1).last() == self.creds@[j as int]);
            }
            j = j + 1;
        }
        let ng = self.groups.len();
        let mut new_groups: Vec<GroupRow> = Vec::new();
        let mut k: usize = 0;
        proof {
            assert(self.groups@.take(0) =~= Seq::<GroupRow>::empty());
        }
        while k < ng
            invariant
                ng == self.groups@.len(),
                k <= ng,
                new_groups@ == groups_without(self.groups@.take(k as int), booking.room_number@),
            decreases ng - k,
        {
            let row = &self.groups[k];
            if !str_eq(row.username.as_str(), booking.room_number.as_str()) {
                new_groups.push(clone_group_row(row));
            }
            proof {
                assert(self.groups@.take(k + 1).drop_last() =~= self.groups@.take(k as int));
                assert(self.groups@.take(k + 1).last() == self.groups@[k as int]);
            }
            k = k + 1;
        }
        proof {
            assert(self.rooms@.take(n as int) =~= self.rooms@);
            assert(self.creds@.take(nc as int) =~= self.creds@);
            assert(self.groups@.take(ng as int) =~= self.groups@);
        }
        self.rooms = new_rooms;
        self.creds = new_creds;
        self.groups = new_groups;
        proof {
            let key = booking.room_number@;
            let s0 = *old(self);
            lemma_rooms_without_props(s0.rooms@, key);
            lemma_creds_without_props(s0.creds@, key);
            lemma_groups_without_props(s0.groups@, key);
            assert forall|i2: int| 0 <= i2 < self.rooms@.len() implies creds_have(
                self.creds@,
                #[trigger] self.rooms@[i2].room_number@,
            ) && groups_have(self.groups@, self.rooms@[i2].room_number@) by {
                let u = self.rooms@[i2].room_number@;
                assert(rooms_have(self.rooms@, u));
                let m = choose|m: int| 0 <= m < s0.rooms@.len() && s0.rooms@[m].room_number@ == u;
                assert(creds_have(s0.creds@, u) && groups_have(s0.groups@, u));
            }
            assert forall|i2: int| 0 <= i2 < self.creds@.len() implies rooms_have(
                self.rooms@,
                #[trigger] self.creds@[i2].username@,
            ) by {
                let u = self.creds@[i2].username@;
                assert(creds_have(self.creds@, u));
                let m = choose|m: int| 0 <= m < s0.creds@.len() && s0.creds@[m].username@ == u;
                assert(rooms_have(s0.rooms@, u));
            }
            assert forall|i2: int| 0 <= i2 < self.groups@.len() implies rooms_have(
                self.rooms@,
                #[trigger] self.groups@[i2].username@,
            ) by {
                let u = self.groups@[i2].username@;
                assert(groups_have(self.groups@, u));
                let m = choose|m: int| 0 <= m < s0.groups@.len() && s0.groups@[m].username@ == u;
                assert(rooms_have(s0.rooms@, u));
            }
        }
        Ok(())
    }

    /// Commits an update as one atomic unit: rewrites the room's rows
    /// across the three stores together, rekeying them when the room
    /// number changes.  Rewriting a vacant room's rows is a no-op, as
    /// key-based row updates are; rekeying onto an occupied room violates
    /// the uniqueness constraint and commits nothing.
    pub fn update_repo(&mut self, old_room: &str, booking: &Booking) -> (r: Result<
        (),
        ErrorResponse,
    >)
        requires
            old(self).wf(),
        ensures
            final(self).wf(),
            final(self).services@ == old(self).services@,
            match r {
                Ok(()) => {
                    &&& !(old(self).has_room(old_room@) && booking.room_number@ != old_room@ && old(
                        self,
                    ).has_room(booking.room_number@))
                    &&& (!old(self).has_room(old_room@) ==> *final(self) == *old(self))
                    &&& (old(self).has_room(old_room@) ==> {
                        &&& final(self).rooms@.len() == old(self).rooms@.len()
                        &&& final(self).creds@.len() == old(self).creds@.len()
                        &&& final(self).groups@.len() == old(self).groups@.len()
                        &&& (forall|i: int|
                            0 <= i < old(self).rooms@.len() && old(self).rooms@[i].room_number@
                                == old_room@ ==> room_row_updated(
                                old(self).rooms@[i],
                                #[trigger] final(self).rooms@[i],
                                *booking,
                            ))
                        &&& (forall|i: int|
                            0 <= i < old(self).rooms@.len() && old(self).rooms@[i].room_number@
                                != old_room@ ==> #[trigger] final(self).rooms@[i] == old(
                                self,
                            ).rooms@[i])
                        &&& (forall|i: int|
                            0 <= i < old(self).creds@.len() && old(self).creds@[i].username@
                                == old_room@ ==> cred_row_updated(
                                #[trigger] final(self).creds@[i],
                                *booking,
                            ))
                        &&& (forall|i: int|
                            0 <= i < old(self).creds@.len() && old(self).creds@[i].username@
                                != old_room@ ==> #[trigger] final(self).creds@[i] == old(
                                self,
                            ).creds@[i])
                        &&& (forall|i: int|
                            0 <= i < old(self).groups@.len() && old(self).groups@[i].username@
                                == old_room@ ==> group_row_updated(
                                old(self).groups@[i],
                                #[trigger] final(self).groups@[i],
                                *booking,
                            ))
                        &&& (forall|i: int|
                            0 <= i < old(self).groups@.len() && old(self).groups@[i].username@
                                != old_room@ ==> #[trigger] final(self).groups@[i] == old(
                                self,
                            ).groups@[i])
                        &&& final(self).has_room(booking.room_number@)
                        &&& (booking.room_number@ != old_room@ ==> !final(self).has_room(
                            old_room@,
                        ))
                        &&& (forall|u: Seq<char>|
                            u != old_room@ && u != booking.room_number@ ==> final(self).has_room(u)
                                == old(self).has_room(u))
                    })
                },
                Err(e) => {
                    &&& *final(self) == *old(self)
                    &&& old(self).has_room(old_room@)
                    &&& booking.room_number@ != old_room@
                    &&& old(self).has_room(booking.room_number@)
                    &&& (e matches ErrorResponse::InternalServerErr(m) && m@ == in_use_msg(
                        booking.room_number@,
                    ))
                },
            },
    {
        let has_old = self.is_room_active(old_room);
        let changed = !str_eq(old_room, booking.room_number.as_str());
        if has_old && changed && self.is_room_active(booking.room_number.as_str()) {
            let m = wrap_msg("room ", booking.room_number.as_str(), " is in use");
            return Err(ErrorResponse::InternalServerErr(m));
        }
        if !has_old {
            return Ok(());
        }
        let n = self.rooms.len();
        let mut new_rooms: Vec<RoomRow> = Vec::new();
        let mut i: usize = 0;
        while i < n
            invariant
                n == self.rooms@.len(),
                i <= n,
                new_rooms@.len() == i,
                forall|m: int|
                    0 <= m < i && self.rooms@[m].room_number@ == old_room@ ==> room_row_updated(
                        self.rooms@[m],
                        #[trigger] new_rooms@[m],
                        *booking,
                    ),
                forall|m: int|
                    0 <= m < i && self.rooms@[m].room_number@ != old_room@
                        ==> #[trigger] new_rooms@[m] == self.rooms@[m],
            decreases n - i,
        {
            let row = &self.rooms[i];
            if str_eq(row.room_number.as_str(), old_room) {
                let name_s = match &booking.name {
                    Some(nm) => nm.clone(),
                    None => String::new(),
                };
                new_rooms.push(
                    RoomRow {
                        room_number: booking.room_number.clone(),
                        password: booking.password.clone(),
                        name: name_s,
                        service_id: row.service_id,
                        folio_number: row.folio_number.clone(),
                        checkin_date: booking.checkin_date,
                        checkout_date: booking.checkout_date,
                    },
                );
            } else {
                new_rooms.push(clone_room_row(row));
            }
            i = i + 1;
        }
        let nc = self.creds.len();
        let mut new_creds: Vec<CredRow> = Vec::new();
        let mut j: usize = 0;
        while j < nc
            invariant
                nc == self.creds@.len(),
                j <= nc,
                new_creds@.len() == j,
                forall|m: int|
                    0 <= m < j && self.creds@[m].username@ == old_room@ ==> cred_row_updated(
                        #[trigger] new_creds@[m],
                        *booking,
                    ),
                forall|m: int|
                    0 <= m < j && self.creds@[m].username@ != old_room@
                        ==> #[trigger] new_creds@[m] == self.creds@[m],
            decreases nc - j,
        {
            let row = &self.creds[j];
            if str_eq(row.username.as_str(), old_room) {
                new_creds.push(
                    CredRow {
                        username: booking.room_number.clone(),
                        value: booking.password.clone(),
                    },
                );
            } else {
                new_creds.push(clone_cred_row(row));
            }
            j = j + 1;
        }
        let ng = self.groups.len();
        let mut new_groups: Vec<GroupRow> = Vec::new();
        let mut k: usize = 0;
        while k < ng
            invariant
                ng == self.groups@.len(),
                k <= ng,
                new_groups@.len() == k,
                forall|m: int|
                    0 <= m < k && self.groups@[m].username@ == old_room@ ==> group_row_updated(
                        self.groups@[m],
                        #[trigger] new_groups@[m],
                        *booking,
                    ),
                forall|m: int|
                    0 <= m < k && self.groups@[m].username@ != old_room@
                        ==> #[trigger] new_groups@[m] == self.groups@[m],
            decreases ng - k,
        {
            let row = &self.groups[k];
            if str_eq(row.username.as_str(), old_room) {
                new_groups.push(
                    GroupRow {
                        username: booking.room_number.clone(),
                        groupname: row.groupname.clone(),
                    },
                );
            } else {
                new_groups.push(clone_group_row(row));
            }
            k = k + 1;
        }
        self.rooms = new_rooms;
        self.creds = new_creds;
        self.groups = new_groups;
        proof {
            lemma_update_preserves_wf(*old(self), *self, old_room@, booking.room_number@, *booking);
        }
        Ok(())
    }

    /// The service assignments currently eligible for automatic
    /// enrollment, in catalog order.
    pub fn get_cron_hotel_service(&self) -> (r: Vec<(i32, String)>)
        ensures
            r@ == self.services@,
    {
        let n = self.services.len();
        let mut r: Vec<(i32, String)> = Vec::new();
        let mut i: usize = 0;
        proof {
            assert(self.services@.subrange(0, 0) =~= Seq::<(i32, String)>::empty());
        }
        while i < n
            invariant
                n == self.services@.len(),
                i <= n,
                r@ == self.services@.subrange(0, i as int),
            decreases n - i,
        {
            let id = self.services[i].0;
            let name = self.services[i].1.clone();
            r.push((id, name));
            proof {
                assert(self.services@.subrange(0, i + 1) =~= self.services@.subrange(
                    0,
                    i as int,
                ).push(self.services@[i as int]));
            }
            i = i + 1;
        }
        proof {
            assert(self.services@.subrange(0, n as int) =~= self.services@);
        }
        r
    }
}

} // verus!
