//! Selecting old repositories by age and archiving a chosen subset of them:
//! age tokens and the age stepper, the calendar cutoff, filtering and ordering
//! of the catalog, the interactive session's state machine, and the serial
//! archive worker's decisions.

pub mod age;
pub mod catalog;
pub mod date;
pub mod keys;
pub mod session;
pub mod worker;
