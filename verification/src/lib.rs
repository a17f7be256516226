//! Reading battle reports (JSON) into typed battle records and laying them
//! out as spreadsheet rows.

pub mod cell;
pub mod json;
pub mod text;
pub mod model;
pub mod targets;
