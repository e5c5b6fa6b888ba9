//! Sampler state: the statistics a background tick folds fresh counter
//! readings into, and the preformatted snapshot the renderer reads.
//!
//! The sampler has two modes. After the selection changes (Settling) no
//! baseline exists: the next tick records the fresh reading as both baseline
//! and current value, so the first delta is zero. Otherwise (Sampling) the
//! previous current reading becomes the baseline and deltas are meaningful.

use vstd::prelude::*;
use vstd::string::*;

use crate::counters::{counter_delta, delta_spec};
use crate::rate::{bytes_to_human_readable, get_rate, human_size_spec, rate_spec};

verus! {

/// The sampler's published statistics for the selected interface.
pub struct Stats {
    /// Index of the interface the sampler reads, into the enumerated list.
    pub selected: usize,
    /// The selection the last published tick worked on; differing from
    /// `selected` means the baseline is stale and the next tick settles.
    pub prev_selected: usize,
    /// Baseline receive counter, in bits.
    pub prev_rx_bits: u64,
    /// Baseline transmit counter, in bits.
    pub prev_tx_bits: u64,
    /// Latest receive counter, in bits.
    pub rx_bits: u64,
    /// Latest transmit counter, in bits.
    pub tx_bits: u64,
    /// Link speed as last read, zero when unknown.
    pub speed: u64,
    /// Hardware address as last read.
    pub address: String,
    /// Whether a speed-read failure was already reported once; interfaces
    /// without a speed file fail on every tick and are reported only once.
    pub speed_error_logged: bool,
}

impl Default for Stats {
    /// The state before any tick: nothing selected, no baseline, no reading.
    fn default() -> (r: Self)
        ensures
            r.selected == 0,
            r.prev_selected == 0,
            r.prev_rx_bits == 0,
            r.prev_tx_bits == 0,
            r.rx_bits == 0,
            r.tx_bits == 0,
            r.speed == 0,
            r.address@ == "Unknown"@,
            r.speed_error_logged == false,
    {
        Stats {
            selected: 0,
            prev_selected: 0,
            prev_rx_bits: 0,
            prev_tx_bits: 0,
            rx_bits: 0,
            tx_bits: 0,
            speed: 0,
            address: String::from_str("Unknown"),
            speed_error_logged: false,
        }
    }
}

/// One sampler tick: folds a fresh reading of the selected interface into
/// the stats. When the selection changed since the last tick, or no current
/// reading exists yet, the fresh reading itself becomes the baseline and the
/// next delta is zero; otherwise the previous current reading does.
pub fn update_stats(stats: &mut Stats, rx_bits: u64, tx_bits: u64, speed: u64, address: String)
    ensures
        final(stats).selected == old(stats).selected,
        final(stats).prev_selected == old(stats).selected,
        final(stats).rx_bits == rx_bits,
        final(stats).tx_bits == tx_bits,
        final(stats).prev_rx_bits == (if old(stats).selected != old(stats).prev_selected || old(
            stats,
        ).rx_bits == 0 {
            rx_bits
        } else {
            old(stats).rx_bits
        }),
        final(stats).prev_tx_bits == (if old(stats).selected != old(stats).prev_selected || old(
            stats,
        ).tx_bits == 0 {
            tx_bits
        } else {
            old(stats).tx_bits
        }),
        final(stats).speed == speed,
        final(stats).address == address,
        final(stats).speed_error_logged == old(stats).speed_error_logged,
{
    if stats.selected != stats.prev_selected {
        stats.prev_selected = stats.selected;
        stats.prev_rx_bits = 0;
        stats.prev_tx_bits = 0;
        stats.rx_bits = 0;
        stats.tx_bits = 0;
    }
    stats.prev_rx_bits = if stats.rx_bits == 0 {
        rx_bits
    } else {
        stats.rx_bits
    };
    stats.prev_tx_bits = if stats.tx_bits == 0 {
        tx_bits
    } else {
        stats.tx_bits
    };
    stats.rx_bits = rx_bits;
    stats.tx_bits = tx_bits;
    stats.speed = speed;
    stats.address = address;
}

/// Changes the selected interface. The index must lie within the enumerated
/// list the caller holds; an out-of-bounds selection is a programmer error,
/// not a runtime condition to recover from.
pub fn select(stats: &mut Stats, index: usize, interface_count: usize)
    requires
        index < interface_count,
    ensures
        final(stats).selected == index,
        final(stats).prev_selected == old(stats).prev_selected,
        final(stats).prev_rx_bits == old(stats).prev_rx_bits,
        final(stats).prev_tx_bits == old(stats).prev_tx_bits,
        final(stats).rx_bits == old(stats).rx_bits,
        final(stats).tx_bits == old(stats).tx_bits,
        final(stats).speed == old(stats).speed,
        final(stats).address == old(stats).address,
        final(stats).speed_error_logged == old(stats).speed_error_logged,
{
    stats.selected = index;
}

/// Records that a speed read failed, and says whether to report it: only
/// the first failure in the sampler's lifetime is worth a log line.
pub fn note_speed_error(stats: &mut Stats) -> (report: bool)
    ensures
        report == !old(stats).speed_error_logged,
        final(stats).speed_error_logged == true,
        final(stats).selected == old(stats).selected,
        final(stats).prev_selected == old(stats).prev_selected,
        final(stats).prev_rx_bits == old(stats).prev_rx_bits,
        final(stats).prev_tx_bits == old(stats).prev_tx_bits,
        final(stats).rx_bits == old(stats).rx_bits,
        final(stats).tx_bits == old(stats).tx_bits,
        final(stats).speed == old(stats).speed,
        final(stats).address == old(stats).address,
{
    let report = !stats.speed_error_logged;
    stats.speed_error_logged = true;
    report
}

/// What the renderer shows: every field preformatted, so the renderer does
/// no numeric computation of its own.
pub struct Snapshot {
    pub selected: usize,
    pub rx_rate: String,
    pub tx_rate: String,
    pub total_rx: String,
    pub total_tx: String,
    pub max_speed: String,
    pub address: String,
}

/// Derives the display snapshot from the sampler state: per-second rates
/// from the wraparound-guarded deltas over the tick interval, totals from
/// the cumulative counters, the link speed per second or "Unknown", and the
/// hardware address.
pub fn snapshot(stats: &Stats, interval_ms: u64) -> (r: Snapshot)
    ensures
        r.selected == stats.selected,
        r.rx_rate@ == rate_spec(delta_spec(stats.prev_rx_bits, stats.rx_bits), interval_ms),
        r.tx_rate@ == rate_spec(delta_spec(stats.prev_tx_bits, stats.tx_bits), interval_ms),
        r.total_rx@ == human_size_spec(stats.rx_bits),
        r.total_tx@ == human_size_spec(stats.tx_bits),
        stats.speed == 0 ==> r.max_speed@ == "Unknown"@,
        stats.speed != 0 ==> r.max_speed@ == rate_spec(stats.speed, 1000),
        r.address == stats.address,
{
    Snapshot {
        selected: stats.selected,
        rx_rate: get_rate(counter_delta(stats.prev_rx_bits, stats.rx_bits), interval_ms),
        tx_rate: get_rate(counter_delta(stats.prev_tx_bits, stats.tx_bits), interval_ms),
        total_rx: bytes_to_human_readable(stats.rx_bits),
        total_tx: bytes_to_human_readable(stats.tx_bits),
        max_speed: if stats.speed == 0 {
            String::from_str("Unknown")
        } else {
            get_rate(stats.speed, 1000)
        },
        address: stats.address.clone(),
    }
}

} // verus!
