//! A read-optimized double-buffered ("green/blue") cache.
//!
//! Readers are always served from the active buffer while writers fill the
//! staging buffer and a pending log.  A flush swaps the two roles, waits until
//! no reader still holds the buffer that stopped being active, and replays the
//! log into it so that both buffers agree again.

pub mod barrier;
pub mod error;
pub mod gbcache;
pub mod generation;
pub mod laws;
pub mod lrcache;
pub mod model;
pub mod pending;
pub mod rwcache;
pub mod store;

pub use crate::error::CacheError;
pub use crate::gbcache::{CacheStatus, GreenBlueCache};
pub use crate::rwcache::RwCache;
pub use crate::store::{Key, Value};
