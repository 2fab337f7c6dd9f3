//! A bounded, time-ordered window of price bars and moving statistics over it.
//!
//! [`MovingStatistics`] keeps the most recent bars, at most as many as its
//! capacity, ordered by timestamp. `update` takes a bar in and hands back the
//! bar it pushes out; `means` gives the moving averages over any set of window
//! lengths from one pass of running sums; `deviations` gives the mean absolute
//! deviation of each window from its average.
//!
//! Prices and volumes are fixed-point integers, so that every result is exact
//! and stated: see [`OHLC`].

pub mod averages;
pub mod deviation;
pub mod error;
pub mod ohlc;
pub mod query;
pub mod stats;
pub mod store;
pub mod window;

pub use crate::error::StatsError;
pub use crate::ohlc::{Field, OHLC, UNITS_PER_WHOLE};
pub use crate::stats::MovingStatistics;
