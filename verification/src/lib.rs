//! Core of a season-long fantasy-football competition: the points formula,
//! roster validation, roster display aggregation and league standings.
//!
//! Everything here is pure and stateless; callers hand in snapshots of the
//! player catalog and the stored rosters, and get back either validated data
//! or a specific rejection reason.

pub mod config;
pub mod league;
pub mod listing;
pub mod names;
pub mod ordering;
pub mod player;
pub mod points;
pub mod points_engine;
pub mod roster_laws;
pub mod tally;
pub mod team;
pub mod user;
pub mod validation;
