//! A metered, bounds-checked bridge between untrusted contract code and the
//! host: guest memory regions, gas accounting, scoped contract storage, the
//! host functions linked into each sandbox, module validation, and the
//! outcome of one invocation.
pub mod error;
pub mod params;
pub mod gas;
pub mod memory;
pub mod store;
pub mod bridge;
pub mod crypto;
pub mod wasm;
