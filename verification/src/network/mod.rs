//! What the operating system reports: interfaces, routes and interface events.

pub mod monitor;
pub mod utils;
