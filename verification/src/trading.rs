//! Trading support that is pure arithmetic: slippage bounds.

pub mod utils;

pub use utils::SlippageUtils;
