//! wowasticker: a behavioural sticker chart for one student.
//!
//! The library holds the sticker store and its rules, the keyword scoring of
//! dictated observations and their saving, the plain-text daily report, the
//! chart's date, navigation and input rules, and the bill of materials of the
//! command line.
#![allow(non_camel_case_types)]

pub mod ai;
pub mod chart;
pub mod clock;
pub mod compliance;
pub mod db;
pub mod db_laws;
pub mod observation;
pub mod report;
pub mod share;
pub mod text;
