//! Month-granular calendar arithmetic, chart alignment, rebalancing decisions and the
//! bookkeeping around portfolio-balance simulations, with machine-checked contracts.
pub mod error;
pub mod charts;
pub mod container_util;
pub mod date;
pub mod format;
pub mod io;
pub mod month_slider;
pub mod rebalance;
pub mod schedule;
pub mod search;
pub mod stats;
pub mod text;
pub mod walk;
