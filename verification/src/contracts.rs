//! Contract call plumbing the library can decide by itself: encoding
//! the registry lookup that resolves a token's pool, and reading its
//! answer.

pub mod uniswap_v3_factory;

pub use uniswap_v3_factory::{CallSpec, PoolDiscovery};
