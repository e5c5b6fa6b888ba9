//! Core of a per-interface network throughput monitor.
//!
//! The library derives display statistics from raw OS interface counters:
//! name-prefix classification and display ordering of interfaces, decimal
//! parsing of counter file contents, wraparound-guarded delta computation,
//! human-readable unit scaling of sizes and rates, and the sampler state
//! transition that publishes a fresh snapshot each tick. All file reads,
//! logging and rendering live outside the library and hand in plain values.

pub mod cli;
pub mod counters;
pub mod digits;
pub mod iface;
pub mod parse;
pub mod rate;
pub mod sort;
pub mod stats;

pub use cli::{parse_args, Cli};
pub use counters::{counter_delta, NetError};
pub use digits::u64_to_string;
pub use iface::{get_interface_type, list_ethernet, list_wireless, InterfaceType};
pub use parse::{parse_address, parse_bits_counter, parse_counter, parse_u64};
pub use rate::{bytes_to_human_readable, get_rate};
pub use sort::sort_interface_list;
pub use stats::{note_speed_error, select, snapshot, update_stats, Snapshot, Stats};
