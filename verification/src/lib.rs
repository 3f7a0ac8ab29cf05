//! A status-line library: it parses the textual output of host metric
//! sources (battery files, a mixer query, a backlight query, the local
//! clock) into short readings and composes the single line that is
//! published as a root window's name.

pub mod clock;
pub mod line;
pub mod readings;
pub mod text;
