//! A minimal status-line generator for a desktop status bar.
//!
//! The library holds the verified core: parsing the integer sensor files,
//! deriving the battery and brightness percentage fields, composing the
//! timestamped status line, and the wake-scheduling arithmetic that decides
//! how long the event loop may block before the next minute boundary.

pub mod clock;
pub mod digits;
pub mod reading;
pub mod sched;
pub mod status;
