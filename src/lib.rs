//! Terminal line editing for an interactive console that shares its screen
//! with background log output, and the lookup rules for kernel statistics.

pub mod edit;
pub mod kstat;
