//! Session-based authentication and user-scoped access to schedules and
//! shared color tags.
//!
//! [`Store`] keeps users, sessions, schedules and colors; every operation on
//! it is specified over the store's view, and the module `laws` proves the
//! properties that hold across several operations.
pub mod external;
pub mod laws;
pub mod records;
pub mod store;
pub mod wire;

pub use records::{ApiError, Schedule, ScheduleColor, Session, User};
pub use store::Store;
