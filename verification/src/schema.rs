//! The tables of the store: the rows they hold and the store as a whole.

use crate::models::{
    Member, MemberView, ReservationStatus, SeatStatus, SelectedService, SelectedServiceView,
    Staff, StaffView, User, UserView, view_all,
};
use crate::table::Row;
use crate::time::Timestamp;
use crate::wellformed::lemma_empty_wf;
use vstd::prelude::*;

verus! {

/// A row of the table of administrator accounts.
#[derive(Debug)]
pub struct UserRow {
    pub user: User,
    pub deleted_at: Option<Timestamp>,
}

/// The mathematical value of a [`UserRow`].
pub struct UserRowView {
    pub user: UserView,
    pub deleted_at: Option<Timestamp>,
}

impl View for UserRow {
    type V = UserRowView;

    open spec fn view(&self) -> UserRowView {
        UserRowView {
            user: self.user@,
            deleted_at: self.deleted_at,
        }
    }
}

impl Clone for UserRow {
    fn clone(&self) -> (r: Self)
        ensures
            r@ == self@,
    {
        UserRow {
            user: self.user.clone(),
            deleted_at: self.deleted_at,
        }
    }
}

/// A row of the table of members.
#[derive(Debug)]
pub struct MemberRow {
    pub member: Member,
    pub deleted_at: Option<Timestamp>,
}

/// The mathematical value of a [`MemberRow`].
pub struct MemberRowView {
    pub member: MemberView,
    pub deleted_at: Option<Timestamp>,
}

impl View for MemberRow {
    type V = MemberRowView;

    open spec fn view(&self) -> MemberRowView {
        MemberRowView {
            member: self.member@,
            deleted_at: self.deleted_at,
        }
    }
}

impl Clone for MemberRow {
    fn clone(&self) -> (r: Self)
        ensures
            r@ == self@,
    {
        MemberRow {
            member: self.member.clone(),
            deleted_at: self.deleted_at,
        }
    }
}

/// A row of the table of staff.
#[derive(Debug)]
pub struct StaffRow {
    pub staff: Staff,
    pub deleted_at: Option<Timestamp>,
}

/// The mathematical value of a [`StaffRow`].
pub struct StaffRowView {
    pub staff: StaffView,
    pub deleted_at: Option<Timestamp>,
}

impl View for StaffRow {
    type V = StaffRowView;

    open spec fn view(&self) -> StaffRowView {
        StaffRowView {
            staff: self.staff@,
            deleted_at: self.deleted_at,
        }
    }
}

impl Clone for StaffRow {
    fn clone(&self) -> (r: Self)
        ensures
            r@ == self@,
    {
        StaffRow {
            staff: self.staff.clone(),
            deleted_at: self.deleted_at,
        }
    }
}

/// A row of the table of seats.
#[derive(Debug)]
pub struct SeatRow {
    pub id: i32,
    pub name: String,
    pub status: SeatStatus,
    pub created_at: Timestamp,
    pub updated_at: Timestamp,
    pub deleted_at: Option<Timestamp>,
}

/// The mathematical value of a [`SeatRow`].
pub struct SeatRowView {
    pub id: i32,
    pub name: Seq<char>,
    pub status: SeatStatus,
    pub created_at: Timestamp,
    pub updated_at: Timestamp,
    pub deleted_at: Option<Timestamp>,
}

impl View for SeatRow {
    type V = SeatRowView;

    open spec fn view(&self) -> SeatRowView {
        SeatRowView {
            id: self.id,
            name: self.name@,
            status: self.status,
            created_at: self.created_at,
            updated_at: self.updated_at,
            deleted_at: self.deleted_at,
        }
    }
}

impl Clone for SeatRow {
    fn clone(&self) -> (r: Self)
        ensures
            r@ == self@,
    {
        SeatRow {
            id: self.id,
            name: self.name.clone(),
            status: self.status,
            created_at: self.created_at,
            updated_at: self.updated_at,
            deleted_at: self.deleted_at,
        }
    }
}

/// A row of the table of service sessions. Its line items are rows of the
/// table of selected services that name the session.
#[derive(Debug)]
pub struct SessionRow {
    pub id: String,
    pub seat_id: i32,
    pub member_id: Option<String>,
    pub member_name: String,
    pub total_price: i32,
    pub staff_id: String,
    pub staff_name: String,
    pub start_time: Timestamp,
    pub reservation_id: Option<String>,
    pub created_at: Timestamp,
    pub updated_at: Timestamp,
}

/// The mathematical value of a [`SessionRow`].
pub struct SessionRowView {
    pub id: Seq<char>,
    pub seat_id: i32,
    pub member_id: Option<Seq<char>>,
    pub member_name: Seq<char>,
    pub total_price: i32,
    pub staff_id: Seq<char>,
    pub staff_name: Seq<char>,
    pub start_time: Timestamp,
    pub reservation_id: Option<Seq<char>>,
    pub created_at: Timestamp,
    pub updated_at: Timestamp,
}

impl View for SessionRow {
    type V = SessionRowView;

    open spec fn view(&self) -> SessionRowView {
        SessionRowView {
            id: self.id@,
            seat_id: self.seat_id,
            member_id: self.member_id.deep_view(),
            member_name: self.member_name@,
            total_price: self.total_price,
            staff_id: self.staff_id@,
            staff_name: self.staff_name@,
            start_time: self.start_time,
            reservation_id: self.reservation_id.deep_view(),
            created_at: self.created_at,
            updated_at: self.updated_at,
        }
    }
}

impl Clone for SessionRow {
    fn clone(&self) -> (r: Self)
        ensures
            r@ == self@,
    {
        SessionRow {
            id: self.id.clone(),
            seat_id: self.seat_id,
            member_id: self.member_id.clone(),
            member_name: self.member_name.clone(),
            total_price: self.total_price,
            staff_id: self.staff_id.clone(),
            staff_name: self.staff_name.clone(),
            start_time: self.start_time,
            reservation_id: self.reservation_id.clone(),
            created_at: self.created_at,
            updated_at: self.updated_at,
        }
    }
}

/// A row of the table of reservations.
#[derive(Debug)]
pub struct ReservationRow {
    pub id: String,
    pub member_id: Option<String>,
    pub member_name: String,
    pub member_phone: Option<String>,
    pub seat_id: Option<i32>,
    pub staff_id: String,
    pub staff_name: String,
    pub total_price: i32,
    pub reserved_at: Timestamp,
    pub estimated_duration: i32,
    pub status: ReservationStatus,
    pub created_at: Timestamp,
    pub updated_at: Timestamp,
    pub deleted_at: Option<Timestamp>,
}

/// The mathematical value of a [`ReservationRow`].
pub struct ReservationRowView {
    pub id: Seq<char>,
    pub member_id: Option<Seq<char>>,
    pub member_name: Seq<char>,
    pub member_phone: Option<Seq<char>>,
    pub seat_id: Option<i32>,
    pub staff_id: Seq<char>,
    pub staff_name: Seq<char>,
    pub total_price: i32,
    pub reserved_at: Timestamp,
    pub estimated_duration: i32,
    pub status: ReservationStatus,
    pub created_at: Timestamp,
    pub updated_at: Timestamp,
    pub deleted_at: Option<Timestamp>,
}

impl View for ReservationRow {
    type V = ReservationRowView;

    open spec fn view(&self) -> ReservationRowView {
        ReservationRowView {
            id: self.id@,
            member_id: self.member_id.deep_view(),
            member_name: self.member_name@,
            member_phone: self.member_phone.deep_view(),
            seat_id: self.seat_id,
            staff_id: self.staff_id@,
            staff_name: self.staff_name@,
            total_price: self.total_price,
            reserved_at: self.reserved_at,
            estimated_duration: self.estimated_duration,
            status: self.status,
            created_at: self.created_at,
            updated_at: self.updated_at,
            deleted_at: self.deleted_at,
        }
    }
}

impl Clone for ReservationRow {
    fn clone(&self) -> (r: Self)
        ensures
            r@ == self@,
    {
        ReservationRow {
            id: self.id.clone(),
            member_id: self.member_id.clone(),
            member_name: self.member_name.clone(),
            member_phone: self.member_phone.clone(),
            seat_id: self.seat_id,
            staff_id: self.staff_id.clone(),
            staff_name: self.staff_name.clone(),
            total_price: self.total_price,
            reserved_at: self.reserved_at,
            estimated_duration: self.estimated_duration,
            status: self.status,
            created_at: self.created_at,
            updated_at: self.updated_at,
            deleted_at: self.deleted_at,
        }
    }
}

/// A row of the table of ledger entries.
#[derive(Debug)]
pub struct LedgerRow {
    pub id: String,
    pub reservation_id: Option<String>,
    pub member_id: Option<String>,
    pub member_name: String,
    pub seat_id: i32,
    pub staff_id: String,
    pub staff_name: String,
    pub total_price: i32,
    pub completed_at: Timestamp,
    pub created_at: Timestamp,
}

/// The mathematical value of a [`LedgerRow`].
pub struct LedgerRowView {
    pub id: Seq<char>,
    pub reservation_id: Option<Seq<char>>,
    pub member_id: Option<Seq<char>>,
    pub member_name: Seq<char>,
    pub seat_id: i32,
    pub staff_id: Seq<char>,
    pub staff_name: Seq<char>,
    pub total_price: i32,
    pub completed_at: Timestamp,
    pub created_at: Timestamp,
}

impl View for LedgerRow {
    type V = LedgerRowView;

    open spec fn view(&self) -> LedgerRowView {
        LedgerRowView {
            id: self.id@,
            reservation_id: self.reservation_id.deep_view(),
            member_id: self.member_id.deep_view(),
            member_name: self.member_name@,
            seat_id: self.seat_id,
            staff_id: self.staff_id@,
            staff_name: self.staff_name@,
            total_price: self.total_price,
            completed_at: self.completed_at,
            created_at: self.created_at,
        }
    }
}

impl Clone for LedgerRow {
    fn clone(&self) -> (r: Self)
        ensures
            r@ == self@,
    {
        LedgerRow {
            id: self.id.clone(),
            reservation_id: self.reservation_id.clone(),
            member_id: self.member_id.clone(),
            member_name: self.member_name.clone(),
            seat_id: self.seat_id,
            staff_id: self.staff_id.clone(),
            staff_name: self.staff_name.clone(),
            total_price: self.total_price,
            completed_at: self.completed_at,
            created_at: self.created_at,
        }
    }
}

/// The whole store: one vector of rows per table, in insertion order.
#[derive(Debug)]
pub struct Database {
    /// The table of administrator accounts.
    pub users: Vec<UserRow>,
    /// The table of members.
    pub members: Vec<MemberRow>,
    /// The table of staff.
    pub staff: Vec<StaffRow>,
    /// The table of seats.
    pub seats: Vec<SeatRow>,
    /// The table of service sessions in progress.
    pub sessions: Vec<SessionRow>,
    /// The table of line items of sessions, reservations and ledger entries.
    pub services: Vec<SelectedService>,
    /// The table of reservations.
    pub reservations: Vec<ReservationRow>,
    /// The table of completed services.
    pub ledger: Vec<LedgerRow>,
    /// The highest number ever given to a line item; numbers are not reused.
    pub last_service_id: i32,
}

/// The mathematical value of a [`Database`].
pub struct DatabaseView {
    pub users: Seq<UserRowView>,
    pub members: Seq<MemberRowView>,
    pub staff: Seq<StaffRowView>,
    pub seats: Seq<SeatRowView>,
    pub sessions: Seq<SessionRowView>,
    pub services: Seq<SelectedServiceView>,
    pub reservations: Seq<ReservationRowView>,
    pub ledger: Seq<LedgerRowView>,
    pub last_service_id: int,
}

impl View for Database {
    type V = DatabaseView;

    open spec fn view(&self) -> DatabaseView {
        DatabaseView {
            users: view_all(self.users@),
            members: view_all(self.members@),
            staff: view_all(self.staff@),
            seats: view_all(self.seats@),
            sessions: view_all(self.sessions@),
            services: view_all(self.services@),
            reservations: view_all(self.reservations@),
            ledger: view_all(self.ledger@),
            last_service_id: self.last_service_id as int,
        }
    }
}

impl Row for UserRow {
    open spec fn key(row: UserRowView) -> Seq<char> {
        row.user.id
    }

    open spec fn live(row: UserRowView) -> bool {
        row.deleted_at is None
    }

    fn id(&self) -> (k: &String) {
        &self.user.id
    }

    fn has_key(&self, key: &String) -> (b: bool) {
        self.user.id == *key
    }

    fn is_live(&self) -> (b: bool) {
        self.deleted_at.is_none()
    }
}

impl Row for MemberRow {
    open spec fn key(row: MemberRowView) -> Seq<char> {
        row.member.id
    }

    open spec fn live(row: MemberRowView) -> bool {
        row.deleted_at is None
    }

    fn id(&self) -> (k: &String) {
        &self.member.id
    }

    fn has_key(&self, key: &String) -> (b: bool) {
        self.member.id == *key
    }

    fn is_live(&self) -> (b: bool) {
        self.deleted_at.is_none()
    }
}

impl Row for StaffRow {
    open spec fn key(row: StaffRowView) -> Seq<char> {
        row.staff.id
    }

    open spec fn live(row: StaffRowView) -> bool {
        row.deleted_at is None
    }

    fn id(&self) -> (k: &String) {
        &self.staff.id
    }

    fn has_key(&self, key: &String) -> (b: bool) {
        self.staff.id == *key
    }

    fn is_live(&self) -> (b: bool) {
        self.deleted_at.is_none()
    }
}

impl Row for SessionRow {
    open spec fn key(row: SessionRowView) -> Seq<char> {
        row.id
    }

    open spec fn live(row: SessionRowView) -> bool {
        true
    }

    fn id(&self) -> (k: &String) {
        &self.id
    }

    fn has_key(&self, key: &String) -> (b: bool) {
        self.id == *key
    }

    fn is_live(&self) -> (b: bool) {
        true
    }
}

impl Row for ReservationRow {
    open spec fn key(row: ReservationRowView) -> Seq<char> {
        row.id
    }

    open spec fn live(row: ReservationRowView) -> bool {
        row.deleted_at is None
    }

    fn id(&self) -> (k: &String) {
        &self.id
    }

    fn has_key(&self, key: &String) -> (b: bool) {
        self.id == *key
    }

    fn is_live(&self) -> (b: bool) {
        self.deleted_at.is_none()
    }
}

impl Row for LedgerRow {
    open spec fn key(row: LedgerRowView) -> Seq<char> {
        row.id
    }

    open spec fn live(row: LedgerRowView) -> bool {
        true
    }

    fn id(&self) -> (k: &String) {
        &self.id
    }

    fn has_key(&self, key: &String) -> (b: bool) {
        self.id == *key
    }

    fn is_live(&self) -> (b: bool) {
        true
    }
}

impl Database {
    /// A store with every table empty.
    pub fn new() -> (db: Database)
        ensures
            db@ == DatabaseView::empty(),
            db@.wf(),
    {
        proof {
            lemma_empty_wf();
        }
        let db = Database {
            users: Vec::new(),
            members: Vec::new(),
            staff: Vec::new(),
            seats: Vec::new(),
            sessions: Vec::new(),
            services: Vec::new(),
            reservations: Vec::new(),
            ledger: Vec::new(),
            last_service_id: 0,
        };
        assert(db@.users =~= Seq::empty());
        assert(db@.members =~= Seq::empty());
        assert(db@.staff =~= Seq::empty());
        assert(db@.seats =~= Seq::empty());
        assert(db@.sessions =~= Seq::empty());
        assert(db@.services =~= Seq::empty());
        assert(db@.reservations =~= Seq::empty());
        assert(db@.ledger =~= Seq::empty());
        db
    }
}

impl DatabaseView {
    /// The store with every table empty.
    pub open spec fn empty() -> DatabaseView {
        DatabaseView {
            users: Seq::empty(),
            members: Seq::empty(),
            staff: Seq::empty(),
            seats: Seq::empty(),
            sessions: Seq::empty(),
            services: Seq::empty(),
            reservations: Seq::empty(),
            ledger: Seq::empty(),
            last_service_id: 0,
        }
    }
}

} // verus!
