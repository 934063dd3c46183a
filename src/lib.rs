//! A client library for a school-information service: it bundles module
//! calls into one request, settles each call from the result at its own
//! position, and turns raw schedule records into calendars.

pub mod client;
pub mod date;
pub mod decimal;
pub mod errors;
pub mod json;
pub mod sm;
pub mod sm_req;
pub mod timetable;
pub mod transformers;

pub use client::{SmHours, SmTimetable};
