//! A vote ledger with trailing-window tallies and a debounced retention sweep.
//!
//! Votes are yes/no marks stamped with an instant. The [`surveyor`] counts them
//! over the last 1, 3, 6, 12 and 24 hours; the [`cleaner`] drops the ones that
//! outlived the retention horizon, at most once per sweep interval; the [`app`]
//! runs the cleaner ahead of every submission and every summary.
//!
//! The votes live in a [`ledger`], an in-memory store. [`time`] holds the
//! instants and spans that all of this is measured in, and [`db`] the text
//! form in which an instant goes into a store that keeps text.
//!
//! Nothing here reads a clock: every operation is told what time it is.

pub mod app;
pub mod cleaner;
pub mod db;
pub mod ledger;
pub mod surveyor;
pub mod time;
