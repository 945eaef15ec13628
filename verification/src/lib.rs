//! A status-line formatter: from the status JSON payload to two rows of
//! ANSI-coloured segments (workspace directory and branch; model, context
//! usage and rate-limit usage).
pub mod branch;
pub mod calendar;
pub mod json;
pub mod laws;
pub mod limits;
pub mod number;
pub mod segments;
pub mod status;
pub mod text;
pub mod time;
pub mod timestamp;
