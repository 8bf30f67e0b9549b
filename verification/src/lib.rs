//! Core of a direct-I/O sequential write benchmark.
//!
//! The benchmark writes a number of equal blocks from a page-aligned buffer to
//! a file or device that was opened past the page cache, and times each write
//! and the loop as a whole. This crate holds what is decided on the way and
//! proves it:
//!
//! - [`page`]: page arithmetic;
//! - [`pool`]: which lengths a memory pool accepts, where its page-aligned
//!   base lies inside the memory that the system granted, and the bounded
//!   views it hands out;
//! - [`fill`]: the pseudo-random bytes a buffer can be refilled with;
//! - [`config`] and [`timing`]: what goes into a run and what comes out;
//! - [`driver`]: the order of allocation, opening, writing and reporting,
//!   and when a run ends;
//! - [`error`]: the ways a run fails.
//!
//! Obtaining memory from the system, opening the target, writing to it and
//! reading the clock are left to the caller, who does what the
//! [`driver::Driver`] asks for and reports back how it went.

pub mod config;
pub mod driver;
pub mod error;
pub mod fill;
pub mod page;
pub mod pool;
pub mod timing;

pub use crate::config::{BenchmarkConfig, FillPolicy};
pub use crate::driver::{Action, Driver, Event, Phase};
pub use crate::error::{AllocationError, OpenError, RunError, WriteError};
pub use crate::pool::{AlignedMemoryPool, HugePool, Pool, Region, Strategy};
pub use crate::timing::{TimingResult, Timings};
