//! The battle records that a report holds, and how they are read from it.

pub mod attack;
pub mod battles;
pub mod error;
pub mod fields;
pub mod hpinfo;
pub mod kinds;
pub mod rows;
pub mod war;
