//! Projections of classified schedule records into calendars.

pub mod smartv2;
