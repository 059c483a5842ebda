//! In-memory registry of claimed network devices.
//!
//! A device is claimed by associating a display name with its identifier
//! (an opaque string key, a hardware address in practice). Claims are
//! exclusive per identifier, carry the time they were made, and record the
//! time the device was last observed on the network. A presence poller
//! refreshes that liveness timestamp from raw probe output, and an eviction
//! sweeper removes entries whose liveness timestamp has gone stale.
//!
//! All timestamps are plain `u64` time-units (seconds in the intended
//! deployment); the embedding supplies the current time on each call.

pub mod api;
pub mod laws;
pub mod poller;
pub mod registry;
pub mod shared;
pub mod sweeper;
pub mod text;

pub use api::ValidatedJson;
pub use registry::ActiveUser;
pub use registry::Registry;
