//! Verified core of a2ltool: the scanner and parser for creator definitions
//! embedded in C source comments, symbol names and their lookup in the
//! debug-info type model, the reading of DWARF types, the naming, selection, insertion and removal of
//! A2L items and the groups that refer to them, the decisions of an address
//! update and of record layout updates, and the text of calibration CSV
//! files.

pub mod bytes;
pub mod calibrate;
pub mod creator;
pub mod datatype;
pub mod group;
pub mod insert;
pub mod names;
pub mod ranges;
pub mod reclayout;
pub mod remove;
pub mod search;
pub mod debuginfo;
pub mod symbol;
pub mod text;
pub mod update;
