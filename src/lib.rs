//! Launch-parameter search for an artillery game: screen geometry, the
//! collection of simulated hits into solution lists, and their grouping for
//! display.

pub mod aggregate;
pub mod controls;
pub mod geometry;
pub mod hit;
pub mod order;
pub mod search;
