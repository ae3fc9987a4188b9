//! Turns loosely formatted event rows into calendar events, orders and filters
//! them, projects them onto a calendar service's wire shape, and pairs them
//! with events already on a remote calendar.
pub mod date;
pub mod text;
pub mod event;
pub mod temporal;
pub mod coda;
pub mod csv_rows;
pub mod filter;
pub mod matching;
pub mod project;
pub mod stats;
