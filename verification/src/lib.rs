//! A verified core for a desktop theming tool: it decides, for a moment in
//! time and a geographic location, which theme and which day/night variant
//! should be active, and renders that theme's palette into the exact
//! configuration text of five target applications.
//!
//! The solar calculations, the schedule's override cascade, the palette
//! placeholder resolution and the five renderers are all pure functions
//! with proved contracts. The machine clock is the single trusted window
//! onto the outside world; files, processes and serialization live in the
//! surrounding, unverified shell.

pub mod backup;
pub mod clock;
pub mod datetime;
pub mod docs;
pub mod model;
pub mod num;
pub mod palette;
pub mod render;
pub mod schedule;
pub mod solar;
pub mod strutil;
pub mod sysmon;
pub mod terminalcfg;
pub mod trig;
