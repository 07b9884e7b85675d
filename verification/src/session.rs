//! The session coordination core: driver rotation, the session record and its
//! lifecycle state, the versioned envelope with its migration chain, and the
//! persistence facade.

pub mod branches;
pub mod codec;
pub mod drivers;
pub mod session;
pub mod session_store;
pub mod session_v0;
pub mod settings;
pub mod settings_v0;
pub mod state;
pub mod state_v0;
pub mod versioned_session;

pub use branches::Branches;
pub use drivers::Drivers;
pub use session::{Event, Session};
pub use session_store::SessionStore;
pub use session_v0::SessionV0;
pub use settings::Settings;
pub use settings_v0::SettingsV0;
pub use state::State;
pub use state_v0::StateV0;
pub use versioned_session::{Versioned, VersionedSession};
