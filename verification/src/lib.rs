//! Point-of-sale core for a single-location salon: seats, service sessions,
//! reservations, members, staff and the revenue ledger.
//!
//! The store ([`schema::Database`]) is an in-memory relational model: one
//! vector of rows per table. Every operation is stated over the store's
//! mathematical view ([`schema::DatabaseView`]) and proved against it.
//!
//! - [`service`] is the heart: a service on a seat is started, then
//!   completed or cancelled. A seat holds one session at most.
//! - [`seats`], [`sessions`], [`lines`], [`reservations`], [`ledger`],
//!   [`members`], [`staff`] and [`users`] hold the operations on one table
//!   each, with what they mean.
//! - [`commands`] wraps them as a front end calls them: identities are
//!   drawn fresh and the time is read from the clock.
//! - [`wellformed`] says what holds of a store at all times, and [`laws`]
//!   what the operations have in common.
//! - [`auth`] checks passwords and issues the claims of a token;
//!   [`setup`] makes a new store.
//! - [`table`], [`sorting`], [`tally`], [`text`] and [`time`] are the tools:
//!   finding rows, stable sorting, grouping, texts and timestamps.

pub mod auth;
pub mod commands;
pub mod error;
pub mod ids;
pub mod laws;
pub mod ledger;
pub mod lines;
pub mod members;
pub mod models;
pub mod reservations;
pub mod schema;
pub mod seats;
pub mod service;
pub mod sessions;
pub mod setup;
pub mod sorting;
pub mod staff;
pub mod table;
pub mod tally;
pub mod text;
pub mod time;
pub mod users;
pub mod wellformed;
