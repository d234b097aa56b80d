//! A new store, and the rows that a store starts out with: one
//! administrator, five staff members and six seats.

use crate::auth::{bcrypt_verify, hash_password};
use crate::error::Error;
use crate::ids::fresh_id;
use crate::models::{SeatStatus, Staff};
use crate::schema::{Database, DatabaseView, SeatRow, SeatRowView, StaffRow, StaffRowView};
use crate::staff::new_staff_row;
use crate::time::{now, Timestamp};
use crate::users::{create_user, new_user_row};
use crate::wellformed::{
    lemma_empty_wf, lemma_seed_admin_wf, lemma_seed_seats_wf, lemma_seed_staff_wf,
};
use vstd::prelude::*;

verus! {

/// The number of staff members that a store starts out with.
pub const DEFAULT_STAFF: usize = 5;

/// The number of seats that a store starts out with.
pub const DEFAULT_SEATS: i32 = 6;

/// The name of the administrator that a store starts out with.
pub open spec fn admin_name() -> Seq<char> {
    "admin"@
}

/// The name of the staff member number `k`, counted from zero, that a store
/// starts out with.
pub open spec fn default_staff_name(k: int) -> Seq<char> {
    if k == 0 {
        "원장"@
    } else if k == 1 {
        "직원1"@
    } else if k == 2 {
        "직원2"@
    } else if k == 3 {
        "직원3"@
    } else {
        "직원4"@
    }
}

/// The name of the seat with the number `number` that a store starts out
/// with.
pub open spec fn default_seat_name(number: int) -> Seq<char> {
    if number == 1 {
        "1번 좌석"@
    } else if number == 2 {
        "2번 좌석"@
    } else if number == 3 {
        "3번 좌석"@
    } else if number == 4 {
        "4번 좌석"@
    } else if number == 5 {
        "5번 좌석"@
    } else {
        "6번 좌석"@
    }
}

/// The staff rows that a store starts out with, made at `now` under the
/// identities `ids`.
pub open spec fn default_staff_rows(ids: Seq<Seq<char>>, now: Timestamp) -> Seq<StaffRowView> {
    Seq::new(DEFAULT_STAFF as nat, |k: int| new_staff_row(ids[k], now, default_staff_name(k)))
}

/// The seat row with the number `number` that a store starts out with.
pub open spec fn default_seat_row(number: int, now: Timestamp) -> SeatRowView {
    SeatRowView {
        id: number as i32,
        name: default_seat_name(number),
        status: SeatStatus::Available,
        created_at: now,
        updated_at: now,
        deleted_at: None,
    }
}

/// The seat rows that a store starts out with: the numbers one to six.
pub open spec fn default_seat_rows(now: Timestamp) -> Seq<SeatRowView> {
    Seq::new(DEFAULT_SEATS as nat, |k: int| default_seat_row(k + 1, now))
}

impl DatabaseView {
    /// Some account is live.
    pub open spec fn has_live_user(self) -> bool {
        exists|i: int| 0 <= i < self.users.len() && (#[trigger] self.users[i]).deleted_at is None
    }

    /// Some staff member is live.
    pub open spec fn has_live_staff(self) -> bool {
        exists|i: int| 0 <= i < self.staff.len() && (#[trigger] self.staff[i]).deleted_at is None
    }

    /// Some seat is live.
    pub open spec fn has_live_seat(self) -> bool {
        exists|i: int| 0 <= i < self.seats.len() && (#[trigger] self.seats[i]).deleted_at is None
    }

    /// The five identities differ from each other and from those of all
    /// staff rows.
    pub open spec fn staff_ids_free(self, ids: Seq<Seq<char>>) -> bool {
        &&& forall|a: int, b: int| 0 <= a < b < DEFAULT_STAFF ==> ids[a] != ids[b]
        &&& forall|a: int, i: int|
            0 <= a < DEFAULT_STAFF && 0 <= i < self.staff.len() ==> (#[trigger] self.staff[i]).staff.id
                != #[trigger] ids[a]
    }

    /// No seat row has one of the numbers one to six.
    pub open spec fn seat_numbers_free(self) -> bool {
        forall|i: int|
            0 <= i < self.seats.len() ==> !(1 <= (#[trigger] self.seats[i]).id <= DEFAULT_SEATS)
    }

    /// Making sure there is an administrator: with a live account the
    /// store stays as it is; without one the account `admin` is added under
    /// the identity `id` with the password hash `hash`, unless a deleted
    /// row has the identity or the name, which is refused with `Storage`.
    pub open spec fn after_seed_admin(self, id: Seq<char>, now: Timestamp, hash: Seq<char>) -> (
        DatabaseView,
        Result<(), Error>,
    ) {
        if self.has_live_user() {
            (self, Ok(()))
        } else if self.user_refused(id, admin_name()) {
            (self, Err(Error::Storage))
        } else {
            (self.with_user(new_user_row(id, now, admin_name(), hash)), Ok(()))
        }
    }

    /// Making sure there is staff: with a live staff member the store stays
    /// as it is; without one the five default staff members are added under
    /// the identities `ids`, unless these are not free, which is refused
    /// with `Storage`.
    pub open spec fn after_seed_staff(self, ids: Seq<Seq<char>>, now: Timestamp) -> (
        DatabaseView,
        Result<(), Error>,
    ) {
        if self.has_live_staff() {
            (self, Ok(()))
        } else if !self.staff_ids_free(ids) {
            (self, Err(Error::Storage))
        } else {
            (DatabaseView { staff: self.staff + default_staff_rows(ids, now), ..self }, Ok(()))
        }
    }

    /// Making sure there are seats: with a live seat the store stays as it
    /// is; without one the seats one to six are added, available, unless a
    /// deleted row has one of the numbers, which is refused with `Storage`.
    pub open spec fn after_seed_seats(self, now: Timestamp) -> (DatabaseView, Result<(), Error>) {
        if self.has_live_seat() {
            (self, Ok(()))
        } else if !self.seat_numbers_free() {
            (self, Err(Error::Storage))
        } else {
            (DatabaseView { seats: self.seats + default_seat_rows(now), ..self }, Ok(()))
        }
    }

    /// Making sure there is an administrator, then staff, then seats; the
    /// first refusal ends it, with what was done before left in place.
    pub open spec fn after_seed(
        self,
        now: Timestamp,
        admin_id: Seq<char>,
        hash: Seq<char>,
        staff_ids: Seq<Seq<char>>,
    ) -> (DatabaseView, Result<(), Error>) {
        let (first, admin) = self.after_seed_admin(admin_id, now, hash);
        if admin is Err {
            (first, admin)
        } else {
            let (second, staff) = first.after_seed_staff(staff_ids, now);
            if staff is Err {
                (second, staff)
            } else {
                second.after_seed_seats(now)
            }
        }
    }
}

/// A store with every table there and empty.
pub fn create_tables() -> (db: Database)
    ensures
        db@ == DatabaseView::empty(),
        db@.wf(),
{
    proof {
        lemma_empty_wf();
    }
    Database::new()
}

fn any_live_user(db: &Database) -> (b: bool)
    ensures
        b == db@.has_live_user(),
{
    let mut i: usize = 0;
    while i < db.users.len()
        invariant
            i <= db.users.len(),
            forall|j: int| 0 <= j < i ==> (#[trigger] db@.users[j]).deleted_at is Some,
        decreases db.users.len() - i,
    {
        if db.users[i].deleted_at.is_none() {
            assert(db@.users[i as int].deleted_at is None);
            return true;
        }
        i = i + 1;
    }
    false
}

fn any_live_staff(db: &Database) -> (b: bool)
    ensures
        b == db@.has_live_staff(),
{
    let mut i: usize = 0;
    while i < db.staff.len()
        invariant
            i <= db.staff.len(),
            forall|j: int| 0 <= j < i ==> (#[trigger] db@.staff[j]).deleted_at is Some,
        decreases db.staff.len() - i,
    {
        if db.staff[i].deleted_at.is_none() {
            assert(db@.staff[i as int].deleted_at is None);
            return true;
        }
        i = i + 1;
    }
    false
}

fn any_live_seat(db: &Database) -> (b: bool)
    ensures
        b == db@.has_live_seat(),
{
    let mut i: usize = 0;
    while i < db.seats.len()
        invariant
            i <= db.seats.len(),
            forall|j: int| 0 <= j < i ==> (#[trigger] db@.seats[j]).deleted_at is Some,
        decreases db.seats.len() - i,
    {
        if db.seats[i].deleted_at.is_none() {
            assert(db@.seats[i as int].deleted_at is None);
            return true;
        }
        i = i + 1;
    }
    false
}

/// Makes sure there is an administrator; see
/// [`DatabaseView::after_seed_admin`].
pub fn seed_admin(db: &mut Database, id: &str, now: Timestamp, hash: &str) -> (r: Result<(), Error>)
    ensures
        (final(db)@, r) == old(db)@.after_seed_admin(id@, now, hash@),
        old(db)@.wf() ==> final(db)@.wf(),
{
    proof {
        if db@.wf() {
            lemma_seed_admin_wf(db@, id@, now, hash@);
        }
    }
    if any_live_user(db) {
        return Ok(());
    }
    match create_user(db, id, now, "admin", hash) {
        Ok(_) => Ok(()),
        Err(e) => Err(e),
    }
}

fn default_staff_name_of(k: usize) -> (s: &'static str)
    ensures
        s@ == default_staff_name(k as int),
{
    if k == 0 {
        "원장"
    } else if k == 1 {
        "직원1"
    } else if k == 2 {
        "직원2"
    } else if k == 3 {
        "직원3"
    } else {
        "직원4"
    }
}

fn default_seat_name_of(number: i32) -> (s: &'static str)
    ensures
        s@ == default_seat_name(number as int),
{
    if number == 1 {
        "1번 좌석"
    } else if number == 2 {
        "2번 좌석"
    } else if number == 3 {
        "3번 좌석"
    } else if number == 4 {
        "4번 좌석"
    } else if number == 5 {
        "5번 좌석"
    } else {
        "6번 좌석"
    }
}

/// The texts of five identities.
pub open spec fn texts_of(ids: &[String; 5]) -> Seq<Seq<char>> {
    Seq::new(5, |k: int| ids@[k]@)
}

fn staff_ids_are_free(db: &Database, ids: &[String; 5]) -> (b: bool)
    ensures
        b == db@.staff_ids_free(texts_of(ids)),
{
    let ghost texts = texts_of(ids);
    let mut a: usize = 0;
    while a < 5
        invariant
            a <= 5,
            texts == texts_of(ids),
            forall|x: int, y: int| 0 <= x < y < 5 && x < a ==> texts[x] != texts[y],
            forall|x: int, i: int|
                0 <= x < a && 0 <= i < db@.staff.len() ==> (#[trigger] db@.staff[i]).staff.id
                    != #[trigger] texts[x],
        decreases 5 - a,
    {
        let mut b: usize = a + 1;
        while b < 5
            invariant
                a < b <= 5,
                texts == texts_of(ids),
                forall|y: int| a < y < b ==> texts[a as int] != texts[y],
            decreases 5 - b,
        {
            if ids[a] == ids[b] {
                assert(texts[a as int] == texts[b as int]);
                return false;
            }
            b = b + 1;
        }
        let mut i: usize = 0;
        while i < db.staff.len()
            invariant
                i <= db.staff.len(),
                a < 5,
                texts == texts_of(ids),
                forall|j: int| 0 <= j < i ==> (#[trigger] db@.staff[j]).staff.id != texts[a as int],
            decreases db.staff.len() - i,
        {
            if db.staff[i].staff.id == ids[a] {
                assert(db@.staff[i as int].staff.id == texts[a as int]);
                return false;
            }
            i = i + 1;
        }
        a = a + 1;
    }
    true
}

/// Makes sure there is staff; see [`DatabaseView::after_seed_staff`].
pub fn seed_staff(db: &mut Database, ids: &[String; 5], now: Timestamp) -> (r: Result<(), Error>)
    ensures
        (final(db)@, r) == old(db)@.after_seed_staff(texts_of(ids), now),
        old(db)@.wf() ==> final(db)@.wf(),
{
    proof {
        if db@.wf() {
            lemma_seed_staff_wf(db@, texts_of(ids), now);
        }
    }
    if any_live_staff(db) {
        return Ok(());
    }
    if !staff_ids_are_free(db, ids) {
        return Err(Error::Storage);
    }
    let ghost rows = default_staff_rows(texts_of(ids), now);
    let mut k: usize = 0;
    assert(db@.staff =~= old(db)@.staff + rows.take(0));
    while k < 5
        invariant
            k <= 5,
            rows == default_staff_rows(texts_of(ids), now),
            db@.staff == old(db)@.staff + rows.take(k as int),
            db.users == old(db).users,
            db.members == old(db).members,
            db.seats == old(db).seats,
            db.sessions == old(db).sessions,
            db.services == old(db).services,
            db.reservations == old(db).reservations,
            db.ledger == old(db).ledger,
            db.last_service_id == old(db).last_service_id,
        decreases 5 - k,
    {
        let ghost before = db@.staff;
        let row = StaffRow {
            staff: Staff {
                id: ids[k].clone(),
                name: default_staff_name_of(k).to_owned(),
                created_at: now,
                updated_at: now,
            },
            deleted_at: None,
        };
        assert(row@ == rows[k as int]);
        db.staff.push(row);
        assert(db@.staff =~= before.push(rows[k as int]));
        assert(rows.take(k + 1) =~= rows.take(k as int).push(rows[k as int]));
        assert(db@.staff =~= old(db)@.staff + rows.take(k + 1));
        k = k + 1;
    }
    assert(rows.take(5) =~= rows);
    Ok(())
}

fn seat_numbers_are_free(db: &Database) -> (b: bool)
    ensures
        b == db@.seat_numbers_free(),
{
    let mut i: usize = 0;
    while i < db.seats.len()
        invariant
            i <= db.seats.len(),
            forall|j: int| 0 <= j < i ==> !(1 <= (#[trigger] db@.seats[j]).id <= DEFAULT_SEATS),
        decreases db.seats.len() - i,
    {
        if 1 <= db.seats[i].id && db.seats[i].id <= DEFAULT_SEATS {
            assert(1 <= db@.seats[i as int].id <= DEFAULT_SEATS);
            return false;
        }
        i = i + 1;
    }
    true
}

/// Makes sure there are seats; see [`DatabaseView::after_seed_seats`].
pub fn seed_seats(db: &mut Database, now: Timestamp) -> (r: Result<(), Error>)
    ensures
        (final(db)@, r) == old(db)@.after_seed_seats(now),
        old(db)@.wf() ==> final(db)@.wf(),
{
    proof {
        if db@.wf() {
            lemma_seed_seats_wf(db@, now);
        }
    }
    if any_live_seat(db) {
        return Ok(());
    }
    if !seat_numbers_are_free(db) {
        return Err(Error::Storage);
    }
    let ghost rows = default_seat_rows(now);
    let mut number: i32 = 1;
    assert(db@.seats =~= old(db)@.seats + rows.take(0));
    while number <= DEFAULT_SEATS
        invariant
            1 <= number <= DEFAULT_SEATS + 1,
            rows == default_seat_rows(now),
            db@.seats == old(db)@.seats + rows.take(number - 1),
            db.users == old(db).users,
            db.members == old(db).members,
            db.staff == old(db).staff,
            db.sessions == old(db).sessions,
            db.services == old(db).services,
            db.reservations == old(db).reservations,
            db.ledger == old(db).ledger,
            db.last_service_id == old(db).last_service_id,
        decreases DEFAULT_SEATS + 1 - number,
    {
        let ghost before = db@.seats;
        let row = SeatRow {
            id: number,
            name: default_seat_name_of(number).to_owned(),
            status: SeatStatus::Available,
            created_at: now,
            updated_at: now,
            deleted_at: None,
        };
        assert(row@ == rows[number - 1]);
        db.seats.push(row);
        assert(db@.seats =~= before.push(rows[number - 1]));
        assert(rows.take(number as int) =~= rows.take(number - 1).push(rows[number - 1]));
        assert(db@.seats =~= old(db)@.seats + rows.take(number as int));
        number = number + 1;
    }
    assert(rows.take(DEFAULT_SEATS as int) =~= rows);
    Ok(())
}

/// Gives a store the rows it starts out with, where it lacks them; see
/// [`DatabaseView::after_seed`].
pub fn seed_data(
    db: &mut Database,
    now: Timestamp,
    admin_id: &str,
    admin_hash: &str,
    staff_ids: &[String; 5],
) -> (r: Result<(), Error>)
    ensures
        (final(db)@, r) == old(db)@.after_seed(now, admin_id@, admin_hash@, texts_of(staff_ids)),
        old(db)@.wf() ==> final(db)@.wf(),
{
    match seed_admin(db, admin_id, now, admin_hash) {
        Ok(()) => {},
        Err(e) => {
            return Err(e);
        },
    }
    match seed_staff(db, staff_ids, now) {
        Ok(()) => {},
        Err(e) => {
            return Err(e);
        },
    }
    seed_seats(db, now)
}

/// The password of the administrator that a store starts out with.
pub open spec fn default_password() -> Seq<char> {
    "admin"@
}

/// Gives a store the rows it starts out with, where it lacks them, at the
/// time the clock shows. Identities are drawn, and the administrator's
/// password [`default_password`] is hashed, only for what is to be added.
///
/// A store that has a live account, live staff and live seats is left as
/// it is. `Storage` comes back when an administrator is to be added and the
/// password cannot be hashed, with the store as it was, or when the seeding
/// itself is refused, as [`DatabaseView::after_seed`] says for what was
/// drawn. The hash that is stored is one that verifies the default
/// password.
pub fn seed_defaults(db: &mut Database) -> (r: Result<(), Error>)
    ensures
        (r == Err::<(), Error>(Error::Storage) && final(db)@ == old(db)@
            && !old(db)@.has_live_user()) || exists|
            now: Timestamp,
            admin_id: Seq<char>,
            hash: Seq<char>,
            staff_ids: Seq<Seq<char>>,
        |
            (final(db)@, r) == #[trigger] old(db)@.after_seed(now, admin_id, hash, staff_ids) && (
            !old(db)@.has_live_user() ==> bcrypt_verify(default_password(), hash) == Some(true)),
        old(db)@.has_live_user() && old(db)@.has_live_staff() && old(db)@.has_live_seat() ==> r is Ok
            && final(db)@ == old(db)@,
        old(db)@.wf() ==> final(db)@.wf(),
{
    let at = now();
    let (admin_id, hash) = if any_live_user(db) {
        (String::new(), String::new())
    } else {
        match hash_password("admin") {
            Ok(hash) => (fresh_id(), hash),
            Err(_) => {
                return Err(Error::Storage);
            },
        }
    };
    let staff_ids = if any_live_staff(db) {
        [String::new(), String::new(), String::new(), String::new(), String::new()]
    } else {
        [fresh_id(), fresh_id(), fresh_id(), fresh_id(), fresh_id()]
    };
    let r = seed_data(db, at, admin_id.as_str(), hash.as_str(), &staff_ids);
    proof {
        let _ = old(db)@.after_seed(at, admin_id@, hash@, texts_of(&staff_ids));
    }
    r
}

/// A new store with the rows it starts out with: the administrator `admin`
/// with the password [`default_password`], hashed; five staff members; six
/// seats. The identities are drawn fresh and the time is read from the
/// clock.
///
/// `Storage` comes back when the password cannot be hashed or the
/// identities that were drawn collide.
pub fn init_database() -> (r: Result<Database, Error>)
    ensures
        r matches Ok(db) ==> exists|
            now: Timestamp,
            admin_id: Seq<char>,
            hash: Seq<char>,
            staff_ids: Seq<Seq<char>>,
        |
            (db@, Ok::<(), Error>(())) == #[trigger] DatabaseView::empty().after_seed(
                now,
                admin_id,
                hash,
                staff_ids,
            ) && bcrypt_verify(default_password(), hash) == Some(true),
        r matches Ok(db) ==> db@.wf(),
        r matches Err(e) ==> e == Error::Storage,
{
    let mut db = create_tables();
    match seed_defaults(&mut db) {
        Ok(()) => Ok(db),
        Err(e) => {
            proof {
                lemma_seed_refusal_is_storage(DatabaseView::empty());
            }
            Err(e)
        },
    }
}

/// Seeding is refused with `Storage`, if it is refused.
pub proof fn lemma_seed_refusal_is_storage(db: DatabaseView)
    ensures
        forall|now: Timestamp, admin_id: Seq<char>, hash: Seq<char>, staff_ids: Seq<Seq<char>>|
            (#[trigger] db.after_seed(now, admin_id, hash, staff_ids)).1 matches Err(e) ==> e
                == Error::Storage,
{
}

} // verus!
