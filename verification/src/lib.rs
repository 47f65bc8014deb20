//! Verified core of the Cyborg pallets: connection management with edge
//! servers, provider rewards, and worker-cluster registration.
//!
//! Each pallet is modelled as a state value with one method per
//! dispatchable call.  A call takes the origin and its arguments, updates
//! the state on success and returns the event it deposits; on failure it
//! leaves the state untouched and returns the dispatch error.
pub mod cluster_status;
pub mod codec;
pub mod edge_connect;
pub mod rewards;
pub mod worker_registration;
mod origin;

pub use origin::{ensure_signed, AccountId, DispatchError, Origin};
