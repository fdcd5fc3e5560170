//! Conversion of a fixed-width rail timetable into GTFS rows.
//!
//! The timetable is a sequence of text lines whose first two characters name
//! the record kind and whose remaining columns sit at fixed character offsets.
//! The library reads station and operator reference lines into lookup tables,
//! runs the schedule lines through a two-state machine that assembles trips,
//! and consolidates the finished trips into agency, route, calendar, trip and
//! stop-time rows.

pub mod calendar;
pub mod feed;
pub mod index;
pub mod operator;
pub mod osm;
pub mod route;
pub mod schedule;
pub mod station;
pub mod table;
pub mod text;
pub mod time;
pub mod trips;

