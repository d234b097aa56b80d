use timehair::models::{ReservationStatus, SeatStatus};

#[test]
fn seat_status_texts_round_trip() {
    assert_eq!(SeatStatus::Available.as_str(), "available");
    assert_eq!(SeatStatus::InUse.as_str(), "in_use");
    assert_eq!(SeatStatus::Reserved.as_str(), "reserved");
    assert_eq!(SeatStatus::from_str("in_use"), SeatStatus::InUse);
    assert_eq!(SeatStatus::from_str("reserved"), SeatStatus::Reserved);
    assert_eq!(SeatStatus::from_str("available"), SeatStatus::Available);
}

#[test]
fn unknown_seat_status_text_falls_back_to_available() {
    assert_eq!(SeatStatus::from_str("broken"), SeatStatus::Available);
    assert_eq!(SeatStatus::from_str(""), SeatStatus::Available);
}

#[test]
fn reservation_status_texts_round_trip() {
    assert_eq!(ReservationStatus::Scheduled.as_str(), "scheduled");
    assert_eq!(ReservationStatus::InProgress.as_str(), "in_progress");
    assert_eq!(ReservationStatus::Completed.as_str(), "completed");
    assert_eq!(ReservationStatus::Cancelled.as_str(), "cancelled");
    assert_eq!(ReservationStatus::from_str("in_progress"), ReservationStatus::InProgress);
    assert_eq!(ReservationStatus::from_str("completed"), ReservationStatus::Completed);
    assert_eq!(ReservationStatus::from_str("cancelled"), ReservationStatus::Cancelled);
    assert_eq!(ReservationStatus::from_str("scheduled"), ReservationStatus::Scheduled);
}

#[test]
fn unknown_reservation_status_text_falls_back_to_scheduled() {
    assert_eq!(ReservationStatus::from_str("done"), ReservationStatus::Scheduled);
}
