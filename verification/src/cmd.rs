//! The coordination commands: each loads the session, decides a transition,
//! and saves the session back, with the interactive and version-control side
//! effects at the program's edge.

pub mod done;
pub mod next;
pub mod order;
pub mod start;
pub mod status;

pub use done::Done;
pub use next::Next;
pub use order::Order;
pub use start::{Start, StartOpts};
pub use status::{Status, StatusOpts};
