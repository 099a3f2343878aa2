//! Rewrites text by turning embedded Unix-epoch timestamps (in seconds,
//! milliseconds or microseconds) into readable date-times, leaving every
//! other character as it was.

mod calendar;
pub mod classify;
pub mod render;
pub mod rewrite;

mod text;

pub use calendar::{rfc3339_of, strftime_fixed_of, strftime_utc_of, DAY_SECS, MAX_SECS};
pub use classify::{accepted_unit, get_dt, pow10, Unit};
pub use render::{parse_ticks, render_at_offset, Opt};
pub use rewrite::rewrite;

