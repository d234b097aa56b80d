//! The entities of the salon, the requests that create or change them, and
//! their mathematical views.

use crate::sorting::Ranked;
use crate::text::same_text;
use crate::time::Timestamp;
use vstd::prelude::*;

verus! {

/// The views of the elements of `s`, in order.
pub open spec fn view_all<T: View>(s: Seq<T>) -> Seq<T::V> {
    Seq::new(s.len(), |i: int| s[i]@)
}

/// The view of what `o` holds, if it holds anything.
pub open spec fn option_view<T: View>(o: Option<T>) -> Option<T::V> {
    match o {
        Some(x) => Some(x@),
        None => None,
    }
}

/// The view of what `r` holds if it is `Ok`; the error otherwise.
pub open spec fn result_view<T: View, E>(r: Result<T, E>) -> Result<T::V, E> {
    match r {
        Ok(x) => Ok(x@),
        Err(e) => Err(e),
    }
}

// ==================== Seat status ====================

/// Whether a seat is free, taken or held for a reservation.
#[derive(Clone, Copy, PartialEq, Eq, Debug, Structural)]
pub enum SeatStatus {
    Available,
    InUse,
    Reserved,
}

impl SeatStatus {
    /// The stored text of a status.
    pub open spec fn text(self) -> Seq<char> {
        match self {
            SeatStatus::Available => "available"@,
            SeatStatus::InUse => "in_use"@,
            SeatStatus::Reserved => "reserved"@,
        }
    }

    /// The status that a stored text stands for; any text that is not the
    /// text of a status stands for `Available`.
    pub open spec fn parse(s: Seq<char>) -> SeatStatus {
        if s == "in_use"@ {
            SeatStatus::InUse
        } else if s == "reserved"@ {
            SeatStatus::Reserved
        } else {
            SeatStatus::Available
        }
    }

    /// The text under which the status is stored.
    pub fn as_str(&self) -> (s: &'static str)
        ensures
            s@ == self.text(),
    {
        match self {
            SeatStatus::Available => "available",
            SeatStatus::InUse => "in_use",
            SeatStatus::Reserved => "reserved",
        }
    }

    /// The status that the stored text `s` stands for; `Available` for a
    /// text that is not the text of a status.
    pub fn from_str(s: &str) -> (r: SeatStatus)
        ensures
            r == SeatStatus::parse(s@),
    {
        if same_text(s, "in_use") {
            SeatStatus::InUse
        } else if same_text(s, "reserved") {
            SeatStatus::Reserved
        } else {
            SeatStatus::Available
        }
    }
}

/// Reading back the stored text of a seat status gives that status.
pub proof fn lemma_seat_status_round_trip(status: SeatStatus)
    ensures
        SeatStatus::parse(status.text()) == status,
{
    reveal_strlit("available");
    reveal_strlit("in_use");
    reveal_strlit("reserved");
    assert("available"@.len() == 9);
    assert("in_use"@.len() == 6);
    assert("reserved"@.len() == 8);
}

// ==================== Reservation status ====================

/// Where a reservation stands.
#[derive(Clone, Copy, PartialEq, Eq, Debug, Structural)]
pub enum ReservationStatus {
    Scheduled,
    InProgress,
    Completed,
    Cancelled,
}

impl ReservationStatus {
    /// The stored text of a status.
    pub open spec fn text(self) -> Seq<char> {
        match self {
            ReservationStatus::Scheduled => "scheduled"@,
            ReservationStatus::InProgress => "in_progress"@,
            ReservationStatus::Completed => "completed"@,
            ReservationStatus::Cancelled => "cancelled"@,
        }
    }

    /// The status that a stored text stands for; any text that is not the
    /// text of a status stands for `Scheduled`.
    pub open spec fn parse(s: Seq<char>) -> ReservationStatus {
        if s == "in_progress"@ {
            ReservationStatus::InProgress
        } else if s == "completed"@ {
            ReservationStatus::Completed
        } else if s == "cancelled"@ {
            ReservationStatus::Cancelled
        } else {
            ReservationStatus::Scheduled
        }
    }

    /// The text under which the status is stored.
    pub fn as_str(&self) -> (s: &'static str)
        ensures
            s@ == self.text(),
    {
        match self {
            ReservationStatus::Scheduled => "scheduled",
            ReservationStatus::InProgress => "in_progress",
            ReservationStatus::Completed => "completed",
            ReservationStatus::Cancelled => "cancelled",
        }
    }

    /// The status that the stored text `s` stands for; `Scheduled` for a
    /// text that is not the text of a status.
    pub fn from_str(s: &str) -> (r: ReservationStatus)
        ensures
            r == ReservationStatus::parse(s@),
    {
        if same_text(s, "in_progress") {
            ReservationStatus::InProgress
        } else if same_text(s, "completed") {
            ReservationStatus::Completed
        } else if same_text(s, "cancelled") {
            ReservationStatus::Cancelled
        } else {
            ReservationStatus::Scheduled
        }
    }
}

/// Reading back the stored text of a reservation status gives that status.
pub proof fn lemma_reservation_status_round_trip(status: ReservationStatus)
    ensures
        ReservationStatus::parse(status.text()) == status,
{
    reveal_strlit("scheduled");
    reveal_strlit("in_progress");
    reveal_strlit("completed");
    reveal_strlit("cancelled");
    assert("scheduled"@.len() == 9);
    assert("in_progress"@.len() == 11);
    assert("completed"@.len() == 9);
    assert("cancelled"@.len() == 9);
    assert("completed"@[1] == 'o');
    assert("cancelled"@[1] == 'a');
    assert("scheduled"@[1] == 'c');
}

// ==================== Entities and requests ====================

/// A line item: one service with its price, attached to a session, a
/// reservation or a ledger entry.
#[derive(Debug)]
pub struct SelectedService {
    pub id: i32,
    pub service_session_id: Option<String>,
    pub reservation_id: Option<String>,
    pub ledger_entry_id: Option<String>,
    pub name: String,
    pub length: Option<String>,
    pub price: i32,
}

/// The mathematical value of a [`SelectedService`].
pub struct SelectedServiceView {
    pub id: i32,
    pub service_session_id: Option<Seq<char>>,
    pub reservation_id: Option<Seq<char>>,
    pub ledger_entry_id: Option<Seq<char>>,
    pub name: Seq<char>,
    pub length: Option<Seq<char>>,
    pub price: i32,
}

impl View for SelectedService {
    type V = SelectedServiceView;

    open spec fn view(&self) -> SelectedServiceView {
        SelectedServiceView {
            id: self.id,
            service_session_id: self.service_session_id.deep_view(),
            reservation_id: self.reservation_id.deep_view(),
            ledger_entry_id: self.ledger_entry_id.deep_view(),
            name: self.name@,
            length: self.length.deep_view(),
            price: self.price,
        }
    }
}

impl Clone for SelectedService {
    fn clone(&self) -> (r: Self)
        ensures
            r@ == self@,
    {
        SelectedService {
            id: self.id,
            service_session_id: self.service_session_id.clone(),
            reservation_id: self.reservation_id.clone(),
            ledger_entry_id: self.ledger_entry_id.clone(),
            name: self.name.clone(),
            length: self.length.clone(),
            price: self.price,
        }
    }
}

/// A copy of `v` with the same views in the same order.
pub fn clone_services(v: &Vec<SelectedService>) -> (r: Vec<SelectedService>)
    ensures
        view_all(r@) == view_all(v@),
{
    let mut out: Vec<SelectedService> = Vec::new();
    let mut i: usize = 0;
    while i < v.len()
        invariant
            i <= v.len(),
            out.len() == i,
            forall|j: int| 0 <= j < i ==> out[j]@ == v[j]@,
        decreases v.len() - i,
    {
        out.push(v[i].clone());
        i = i + 1;
    }
    assert(view_all(out@) =~= view_all(v@));
    out
}

/// A line item as a request names it.
#[derive(Debug)]
pub struct ServiceInput {
    pub name: String,
    pub length: Option<String>,
    pub price: i32,
}

/// The mathematical value of a [`ServiceInput`].
pub struct ServiceInputView {
    pub name: Seq<char>,
    pub length: Option<Seq<char>>,
    pub price: i32,
}

impl View for ServiceInput {
    type V = ServiceInputView;

    open spec fn view(&self) -> ServiceInputView {
        ServiceInputView {
            name: self.name@,
            length: self.length.deep_view(),
            price: self.price,
        }
    }
}

impl Clone for ServiceInput {
    fn clone(&self) -> (r: Self)
        ensures
            r@ == self@,
    {
        ServiceInput {
            name: self.name.clone(),
            length: self.length.clone(),
            price: self.price,
        }
    }
}

/// An administrator account. `password` holds the bcrypt hash.
#[derive(Debug)]
pub struct User {
    pub id: String,
    pub username: String,
    pub password: String,
    pub created_at: Timestamp,
    pub updated_at: Timestamp,
}

/// The mathematical value of a [`User`].
pub struct UserView {
    pub id: Seq<char>,
    pub username: Seq<char>,
    pub password: Seq<char>,
    pub created_at: Timestamp,
    pub updated_at: Timestamp,
}

impl View for User {
    type V = UserView;

    open spec fn view(&self) -> UserView {
        UserView {
            id: self.id@,
            username: self.username@,
            password: self.password@,
            created_at: self.created_at,
            updated_at: self.updated_at,
        }
    }
}

impl Clone for User {
    fn clone(&self) -> (r: Self)
        ensures
            r@ == self@,
    {
        User {
            id: self.id.clone(),
            username: self.username.clone(),
            password: self.password.clone(),
            created_at: self.created_at,
            updated_at: self.updated_at,
        }
    }
}

/// What a signed-in administrator may see of the account.
#[derive(Debug)]
pub struct UserInfo {
    pub id: String,
    pub username: String,
    pub created_at: Timestamp,
}

/// The mathematical value of a [`UserInfo`].
pub struct UserInfoView {
    pub id: Seq<char>,
    pub username: Seq<char>,
    pub created_at: Timestamp,
}

impl View for UserInfo {
    type V = UserInfoView;

    open spec fn view(&self) -> UserInfoView {
        UserInfoView {
            id: self.id@,
            username: self.username@,
            created_at: self.created_at,
        }
    }
}

impl Clone for UserInfo {
    fn clone(&self) -> (r: Self)
        ensures
            r@ == self@,
    {
        UserInfo {
            id: self.id.clone(),
            username: self.username.clone(),
            created_at: self.created_at,
        }
    }
}

/// The credentials of a sign-in attempt.
#[derive(Debug)]
pub struct LoginRequest {
    pub username: String,
    pub password: String,
}

/// A successful sign-in: the token and the account it stands for.
#[derive(Debug)]
pub struct LoginResponse {
    pub token: String,
    pub user: UserInfo,
}

/// The mathematical value of a [`LoginResponse`].
pub struct LoginResponseView {
    pub token: Seq<char>,
    pub user: UserInfoView,
}

impl View for LoginResponse {
    type V = LoginResponseView;

    open spec fn view(&self) -> LoginResponseView {
        LoginResponseView {
            token: self.token@,
            user: self.user@,
        }
    }
}

/// A customer with a loyalty stamp counter.
#[derive(Debug)]
pub struct Member {
    pub id: String,
    pub name: String,
    pub phone: String,
    pub stamps: i32,
    pub created_at: Timestamp,
    pub updated_at: Timestamp,
}

/// The mathematical value of a [`Member`].
pub struct MemberView {
    pub id: Seq<char>,
    pub name: Seq<char>,
    pub phone: Seq<char>,
    pub stamps: i32,
    pub created_at: Timestamp,
    pub updated_at: Timestamp,
}

impl View for Member {
    type V = MemberView;

    open spec fn view(&self) -> MemberView {
        MemberView {
            id: self.id@,
            name: self.name@,
            phone: self.phone@,
            stamps: self.stamps,
            created_at: self.created_at,
            updated_at: self.updated_at,
        }
    }
}

impl Clone for Member {
    fn clone(&self) -> (r: Self)
        ensures
            r@ == self@,
    {
        Member {
            id: self.id.clone(),
            name: self.name.clone(),
            phone: self.phone.clone(),
            stamps: self.stamps,
            created_at: self.created_at,
            updated_at: self.updated_at,
        }
    }
}

/// The fields of a new member.
#[derive(Debug)]
pub struct CreateMemberRequest {
    pub name: String,
    pub phone: String,
}

/// The new fields of a member.
#[derive(Debug)]
pub struct UpdateMemberRequest {
    pub name: String,
    pub phone: String,
}

/// A person who serves customers.
#[derive(Debug)]
pub struct Staff {
    pub id: String,
    pub name: String,
    pub created_at: Timestamp,
    pub updated_at: Timestamp,
}

/// The mathematical value of a [`Staff`].
pub struct StaffView {
    pub id: Seq<char>,
    pub name: Seq<char>,
    pub created_at: Timestamp,
    pub updated_at: Timestamp,
}

impl View for Staff {
    type V = StaffView;

    open spec fn view(&self) -> StaffView {
        StaffView {
            id: self.id@,
            name: self.name@,
            created_at: self.created_at,
            updated_at: self.updated_at,
        }
    }
}

impl Clone for Staff {
    fn clone(&self) -> (r: Self)
        ensures
            r@ == self@,
    {
        Staff {
            id: self.id.clone(),
            name: self.name.clone(),
            created_at: self.created_at,
            updated_at: self.updated_at,
        }
    }
}

/// The fields of a new staff member.
#[derive(Debug)]
pub struct CreateStaffRequest {
    pub name: String,
}

/// The new fields of a staff member.
#[derive(Debug)]
pub struct UpdateStaffRequest {
    pub name: String,
}

/// A service in progress on one seat.
#[derive(Debug)]
pub struct ServiceSession {
    pub id: String,
    pub seat_id: i32,
    pub member_id: Option<String>,
    pub member_name: String,
    pub services: Vec<SelectedService>,
    pub total_price: i32,
    pub staff_id: String,
    pub staff_name: String,
    pub start_time: Timestamp,
    pub reservation_id: Option<String>,
    pub created_at: Timestamp,
    pub updated_at: Timestamp,
}

/// The mathematical value of a [`ServiceSession`].
pub struct ServiceSessionView {
    pub id: Seq<char>,
    pub seat_id: i32,
    pub member_id: Option<Seq<char>>,
    pub member_name: Seq<char>,
    pub services: Seq<SelectedServiceView>,
    pub total_price: i32,
    pub staff_id: Seq<char>,
    pub staff_name: Seq<char>,
    pub start_time: Timestamp,
    pub reservation_id: Option<Seq<char>>,
    pub created_at: Timestamp,
    pub updated_at: Timestamp,
}

impl View for ServiceSession {
    type V = ServiceSessionView;

    open spec fn view(&self) -> ServiceSessionView {
        ServiceSessionView {
            id: self.id@,
            seat_id: self.seat_id,
            member_id: self.member_id.deep_view(),
            member_name: self.member_name@,
            services: view_all(self.services@),
            total_price: self.total_price,
            staff_id: self.staff_id@,
            staff_name: self.staff_name@,
            start_time: self.start_time,
            reservation_id: self.reservation_id.deep_view(),
            created_at: self.created_at,
            updated_at: self.updated_at,
        }
    }
}

impl Clone for ServiceSession {
    fn clone(&self) -> (r: Self)
        ensures
            r@ == self@,
    {
        ServiceSession {
            id: self.id.clone(),
            seat_id: self.seat_id,
            member_id: self.member_id.clone(),
            member_name: self.member_name.clone(),
            services: clone_services(&self.services),
            total_price: self.total_price,
            staff_id: self.staff_id.clone(),
            staff_name: self.staff_name.clone(),
            start_time: self.start_time,
            reservation_id: self.reservation_id.clone(),
            created_at: self.created_at,
            updated_at: self.updated_at,
        }
    }
}

/// A service station together with the session it holds, if any.
#[derive(Debug)]
pub struct Seat {
    pub id: i32,
    pub name: String,
    pub status: SeatStatus,
    pub current_session: Option<ServiceSession>,
    pub created_at: Timestamp,
    pub updated_at: Timestamp,
}

/// The mathematical value of a [`Seat`].
pub struct SeatView {
    pub id: i32,
    pub name: Seq<char>,
    pub status: SeatStatus,
    pub current_session: Option<ServiceSessionView>,
    pub created_at: Timestamp,
    pub updated_at: Timestamp,
}

impl View for Seat {
    type V = SeatView;

    open spec fn view(&self) -> SeatView {
        SeatView {
            id: self.id,
            name: self.name@,
            status: self.status,
            current_session: match self.current_session {
                Some(s) => Some(s@),
                None => None,
            },
            created_at: self.created_at,
            updated_at: self.updated_at,
        }
    }
}

impl Clone for Seat {
    fn clone(&self) -> (r: Self)
        ensures
            r@ == self@,
    {
        Seat {
            id: self.id,
            name: self.name.clone(),
            status: self.status,
            current_session: match &self.current_session {
                Some(s) => Some(s.clone()),
                None => None,
            },
            created_at: self.created_at,
            updated_at: self.updated_at,
        }
    }
}

/// What is needed to start a service on a seat.
#[derive(Debug)]
pub struct StartServiceRequest {
    pub member_id: Option<String>,
    pub member_name: String,
    pub staff_id: String,
    pub staff_name: String,
    pub services: Vec<ServiceInput>,
    pub total_price: i32,
    pub reservation_id: Option<String>,
}

/// The mathematical value of a [`StartServiceRequest`].
pub struct StartServiceRequestView {
    pub member_id: Option<Seq<char>>,
    pub member_name: Seq<char>,
    pub staff_id: Seq<char>,
    pub staff_name: Seq<char>,
    pub services: Seq<ServiceInputView>,
    pub total_price: i32,
    pub reservation_id: Option<Seq<char>>,
}

impl View for StartServiceRequest {
    type V = StartServiceRequestView;

    open spec fn view(&self) -> StartServiceRequestView {
        StartServiceRequestView {
            member_id: self.member_id.deep_view(),
            member_name: self.member_name@,
            staff_id: self.staff_id@,
            staff_name: self.staff_name@,
            services: view_all(self.services@),
            total_price: self.total_price,
            reservation_id: self.reservation_id.deep_view(),
        }
    }
}

/// A service scheduled for a later time.
#[derive(Debug)]
pub struct Reservation {
    pub id: String,
    pub member_id: Option<String>,
    pub member_name: String,
    pub member_phone: Option<String>,
    pub seat_id: Option<i32>,
    pub staff_id: String,
    pub staff_name: String,
    pub services: Vec<SelectedService>,
    pub total_price: i32,
    pub reserved_at: Timestamp,
    pub estimated_duration: i32,
    pub status: ReservationStatus,
    pub created_at: Timestamp,
    pub updated_at: Timestamp,
}

/// The mathematical value of a [`Reservation`].
pub struct ReservationView {
    pub id: Seq<char>,
    pub member_id: Option<Seq<char>>,
    pub member_name: Seq<char>,
    pub member_phone: Option<Seq<char>>,
    pub seat_id: Option<i32>,
    pub staff_id: Seq<char>,
    pub staff_name: Seq<char>,
    pub services: Seq<SelectedServiceView>,
    pub total_price: i32,
    pub reserved_at: Timestamp,
    pub estimated_duration: i32,
    pub status: ReservationStatus,
    pub created_at: Timestamp,
    pub updated_at: Timestamp,
}

impl View for Reservation {
    type V = ReservationView;

    open spec fn view(&self) -> ReservationView {
        ReservationView {
            id: self.id@,
            member_id: self.member_id.deep_view(),
            member_name: self.member_name@,
            member_phone: self.member_phone.deep_view(),
            seat_id: self.seat_id,
            staff_id: self.staff_id@,
            staff_name: self.staff_name@,
            services: view_all(self.services@),
            total_price: self.total_price,
            reserved_at: self.reserved_at,
            estimated_duration: self.estimated_duration,
            status: self.status,
            created_at: self.created_at,
            updated_at: self.updated_at,
        }
    }
}

impl Clone for Reservation {
    fn clone(&self) -> (r: Self)
        ensures
            r@ == self@,
    {
        Reservation {
            id: self.id.clone(),
            member_id: self.member_id.clone(),
            member_name: self.member_name.clone(),
            member_phone: self.member_phone.clone(),
            seat_id: self.seat_id,
            staff_id: self.staff_id.clone(),
            staff_name: self.staff_name.clone(),
            services: clone_services(&self.services),
            total_price: self.total_price,
            reserved_at: self.reserved_at,
            estimated_duration: self.estimated_duration,
            status: self.status,
            created_at: self.created_at,
            updated_at: self.updated_at,
        }
    }
}

/// The fields of a new reservation.
#[derive(Debug)]
pub struct CreateReservationRequest {
    pub member_id: Option<String>,
    pub member_name: String,
    pub member_phone: Option<String>,
    pub seat_id: Option<i32>,
    pub staff_id: String,
    pub staff_name: String,
    pub services: Vec<ServiceInput>,
    pub total_price: i32,
    pub reserved_at: Timestamp,
    pub estimated_duration: i32,
}

/// The mathematical value of a [`CreateReservationRequest`].
pub struct CreateReservationRequestView {
    pub member_id: Option<Seq<char>>,
    pub member_name: Seq<char>,
    pub member_phone: Option<Seq<char>>,
    pub seat_id: Option<i32>,
    pub staff_id: Seq<char>,
    pub staff_name: Seq<char>,
    pub services: Seq<ServiceInputView>,
    pub total_price: i32,
    pub reserved_at: Timestamp,
    pub estimated_duration: i32,
}

impl View for CreateReservationRequest {
    type V = CreateReservationRequestView;

    open spec fn view(&self) -> CreateReservationRequestView {
        CreateReservationRequestView {
            member_id: self.member_id.deep_view(),
            member_name: self.member_name@,
            member_phone: self.member_phone.deep_view(),
            seat_id: self.seat_id,
            staff_id: self.staff_id@,
            staff_name: self.staff_name@,
            services: view_all(self.services@),
            total_price: self.total_price,
            reserved_at: self.reserved_at,
            estimated_duration: self.estimated_duration,
        }
    }
}

/// The new fields of a reservation.
#[derive(Debug)]
pub struct UpdateReservationRequest {
    pub member_id: Option<String>,
    pub member_name: String,
    pub member_phone: Option<String>,
    pub seat_id: Option<i32>,
    pub staff_id: String,
    pub staff_name: String,
    pub services: Vec<ServiceInput>,
    pub total_price: i32,
    pub reserved_at: Timestamp,
    pub estimated_duration: i32,
}

/// The mathematical value of a [`UpdateReservationRequest`].
pub struct UpdateReservationRequestView {
    pub member_id: Option<Seq<char>>,
    pub member_name: Seq<char>,
    pub member_phone: Option<Seq<char>>,
    pub seat_id: Option<i32>,
    pub staff_id: Seq<char>,
    pub staff_name: Seq<char>,
    pub services: Seq<ServiceInputView>,
    pub total_price: i32,
    pub reserved_at: Timestamp,
    pub estimated_duration: i32,
}

impl View for UpdateReservationRequest {
    type V = UpdateReservationRequestView;

    open spec fn view(&self) -> UpdateReservationRequestView {
        UpdateReservationRequestView {
            member_id: self.member_id.deep_view(),
            member_name: self.member_name@,
            member_phone: self.member_phone.deep_view(),
            seat_id: self.seat_id,
            staff_id: self.staff_id@,
            staff_name: self.staff_name@,
            services: view_all(self.services@),
            total_price: self.total_price,
            reserved_at: self.reserved_at,
            estimated_duration: self.estimated_duration,
        }
    }
}

/// The new status of a reservation.
#[derive(Debug)]
pub struct UpdateReservationStatusRequest {
    pub status: ReservationStatus,
}

/// The record of one completed service.
#[derive(Debug)]
pub struct LedgerEntry {
    pub id: String,
    pub reservation_id: Option<String>,
    pub member_id: Option<String>,
    pub member_name: String,
    pub seat_id: i32,
    pub staff_id: String,
    pub staff_name: String,
    pub services: Vec<SelectedService>,
    pub total_price: i32,
    pub completed_at: Timestamp,
    pub created_at: Timestamp,
}

/// The mathematical value of a [`LedgerEntry`].
pub struct LedgerEntryView {
    pub id: Seq<char>,
    pub reservation_id: Option<Seq<char>>,
    pub member_id: Option<Seq<char>>,
    pub member_name: Seq<char>,
    pub seat_id: i32,
    pub staff_id: Seq<char>,
    pub staff_name: Seq<char>,
    pub services: Seq<SelectedServiceView>,
    pub total_price: i32,
    pub completed_at: Timestamp,
    pub created_at: Timestamp,
}

impl View for LedgerEntry {
    type V = LedgerEntryView;

    open spec fn view(&self) -> LedgerEntryView {
        LedgerEntryView {
            id: self.id@,
            reservation_id: self.reservation_id.deep_view(),
            member_id: self.member_id.deep_view(),
            member_name: self.member_name@,
            seat_id: self.seat_id,
            staff_id: self.staff_id@,
            staff_name: self.staff_name@,
            services: view_all(self.services@),
            total_price: self.total_price,
            completed_at: self.completed_at,
            created_at: self.created_at,
        }
    }
}

impl Clone for LedgerEntry {
    fn clone(&self) -> (r: Self)
        ensures
            r@ == self@,
    {
        LedgerEntry {
            id: self.id.clone(),
            reservation_id: self.reservation_id.clone(),
            member_id: self.member_id.clone(),
            member_name: self.member_name.clone(),
            seat_id: self.seat_id,
            staff_id: self.staff_id.clone(),
            staff_name: self.staff_name.clone(),
            services: clone_services(&self.services),
            total_price: self.total_price,
            completed_at: self.completed_at,
            created_at: self.created_at,
        }
    }
}

/// Revenue and number of completed services of one staff member.
#[derive(Debug)]
pub struct StaffRevenue {
    pub staff_id: String,
    pub staff_name: String,
    pub revenue: i32,
    pub count: i32,
}

/// The mathematical value of a [`StaffRevenue`].
pub struct StaffRevenueView {
    pub staff_id: Seq<char>,
    pub staff_name: Seq<char>,
    pub revenue: i32,
    pub count: i32,
}

impl View for StaffRevenue {
    type V = StaffRevenueView;

    open spec fn view(&self) -> StaffRevenueView {
        StaffRevenueView {
            staff_id: self.staff_id@,
            staff_name: self.staff_name@,
            revenue: self.revenue,
            count: self.count,
        }
    }
}

impl Clone for StaffRevenue {
    fn clone(&self) -> (r: Self)
        ensures
            r@ == self@,
    {
        StaffRevenue {
            staff_id: self.staff_id.clone(),
            staff_name: self.staff_name.clone(),
            revenue: self.revenue,
            count: self.count,
        }
    }
}

/// How often a service was sold, and for how much in all.
#[derive(Debug)]
pub struct ServiceCount {
    pub service_name: String,
    pub count: i32,
    pub revenue: i32,
}

/// The mathematical value of a [`ServiceCount`].
pub struct ServiceCountView {
    pub service_name: Seq<char>,
    pub count: i32,
    pub revenue: i32,
}

impl View for ServiceCount {
    type V = ServiceCountView;

    open spec fn view(&self) -> ServiceCountView {
        ServiceCountView {
            service_name: self.service_name@,
            count: self.count,
            revenue: self.revenue,
        }
    }
}

impl Clone for ServiceCount {
    fn clone(&self) -> (r: Self)
        ensures
            r@ == self@,
    {
        ServiceCount {
            service_name: self.service_name.clone(),
            count: self.count,
            revenue: self.revenue,
        }
    }
}

/// Totals over a selection of ledger entries.
#[derive(Debug)]
pub struct LedgerSummary {
    pub total_revenue: i32,
    pub total_count: i32,
    pub by_staff: Vec<StaffRevenue>,
    pub by_service: Vec<ServiceCount>,
}

/// The mathematical value of a [`LedgerSummary`].
pub struct LedgerSummaryView {
    pub total_revenue: i32,
    pub total_count: i32,
    pub by_staff: Seq<StaffRevenueView>,
    pub by_service: Seq<ServiceCountView>,
}

impl View for LedgerSummary {
    type V = LedgerSummaryView;

    open spec fn view(&self) -> LedgerSummaryView {
        LedgerSummaryView {
            total_revenue: self.total_revenue,
            total_count: self.total_count,
            by_staff: view_all(self.by_staff@),
            by_service: view_all(self.by_service@),
        }
    }
}

/// Revenue and number of completed services of one calendar day.
#[derive(Debug)]
pub struct DailySummary {
    pub date: String,
    pub revenue: i32,
    pub count: i32,
}

/// The mathematical value of a [`DailySummary`].
pub struct DailySummaryView {
    pub date: Seq<char>,
    pub revenue: i32,
    pub count: i32,
}

impl View for DailySummary {
    type V = DailySummaryView;

    open spec fn view(&self) -> DailySummaryView {
        DailySummaryView {
            date: self.date@,
            revenue: self.revenue,
            count: self.count,
        }
    }
}

impl Clone for DailySummary {
    fn clone(&self) -> (r: Self)
        ensures
            r@ == self@,
    {
        DailySummary {
            date: self.date.clone(),
            revenue: self.revenue,
            count: self.count,
        }
    }
}

/// Selects members by a search text.
#[derive(Debug, Default)]
pub struct MemberQuery {
    pub search: Option<String>,
}

/// Selects reservations by status and day.
#[derive(Debug, Default)]
pub struct ReservationQuery {
    pub status: Option<String>,
    pub date: Option<String>,
    pub all: Option<String>,
}

/// The mathematical value of a [`ReservationQuery`].
pub struct ReservationQueryView {
    pub status: Option<Seq<char>>,
    pub date: Option<Seq<char>>,
    pub all: Option<Seq<char>>,
}

impl View for ReservationQuery {
    type V = ReservationQueryView;

    open spec fn view(&self) -> ReservationQueryView {
        ReservationQueryView {
            status: self.status.deep_view(),
            date: self.date.deep_view(),
            all: self.all.deep_view(),
        }
    }
}

/// Selects ledger entries by day, or by a range of days, and by staff.
#[derive(Debug, Default)]
pub struct LedgerQuery {
    pub date: Option<String>,
    pub start_date: Option<String>,
    pub end_date: Option<String>,
    pub staff_id: Option<String>,
}

/// The mathematical value of a [`LedgerQuery`].
pub struct LedgerQueryView {
    pub date: Option<Seq<char>>,
    pub start_date: Option<Seq<char>>,
    pub end_date: Option<Seq<char>>,
    pub staff_id: Option<Seq<char>>,
}

impl View for LedgerQuery {
    type V = LedgerQueryView;

    open spec fn view(&self) -> LedgerQueryView {
        LedgerQueryView {
            date: self.date.deep_view(),
            start_date: self.start_date.deep_view(),
            end_date: self.end_date.deep_view(),
            staff_id: self.staff_id.deep_view(),
        }
    }
}

/// Selects the month of a daily summary.
#[derive(Debug, Default)]
pub struct DailySummaryQuery {
    pub year: Option<i32>,
    pub month: Option<u32>,
}

// ==================== Listing order ====================

impl Ranked for Seat {
    /// The lower number is listed first.
    open spec fn precedes(a: SeatView, b: SeatView) -> bool {
        a.id < b.id
    }

    fn goes_before(&self, other: &Self) -> (b: bool) {
        self.id < other.id
    }
}

impl Ranked for Reservation {
    /// The earlier appointment is listed first.
    open spec fn precedes(a: ReservationView, b: ReservationView) -> bool {
        a.reserved_at.before(b.reserved_at)
    }

    fn goes_before(&self, other: &Self) -> (b: bool) {
        self.reserved_at.is_before(&other.reserved_at)
    }
}

impl Ranked for Member {
    /// The member created later is listed first.
    open spec fn precedes(a: MemberView, b: MemberView) -> bool {
        b.created_at.before(a.created_at)
    }

    fn goes_before(&self, other: &Self) -> (b: bool) {
        other.created_at.is_before(&self.created_at)
    }
}

impl Ranked for Staff {
    /// The staff member created earlier is listed first.
    open spec fn precedes(a: StaffView, b: StaffView) -> bool {
        a.created_at.before(b.created_at)
    }

    fn goes_before(&self, other: &Self) -> (b: bool) {
        self.created_at.is_before(&other.created_at)
    }
}

impl Ranked for LedgerEntry {
    /// The later completion is listed first.
    open spec fn precedes(a: LedgerEntryView, b: LedgerEntryView) -> bool {
        b.completed_at.before(a.completed_at)
    }

    fn goes_before(&self, other: &Self) -> (b: bool) {
        other.completed_at.is_before(&self.completed_at)
    }
}

} // verus!
