//! The telemetry sampler: it turns two readings of the aggregate counters
//! and the time between them into rates.
//!
//! The sampler reads no clock and no map. Its caller hands it the time, on a
//! clock that never runs backwards, and the counters it read.

use crate::api::SystemStats;
use crate::config::DaemonConfig;
use crate::error::GuardError;
use vstd::prelude::*;

verus! {

/// Two samples closer together than this many microseconds count as one.
pub const MIN_SAMPLE_MICROS: u64 = 100_000;

/// The latest sample, and the counters it was taken from.
#[derive(Debug, Clone, Copy, PartialEq, Eq, Structural)]
pub struct CollectedStats {
    pub total_packets: u64,
    pub total_bytes: u64,
    pub packets_per_sec: u64,
    /// Bits per second; a million of them make one megabit per second.
    pub bits_per_sec: u64,
    /// When the sample was taken, in seconds since the epoch.
    pub last_update: u64,
    /// The packet counter at the sample before.
    pub prev_packets: u64,
    /// The byte counter at the sample before.
    pub prev_bytes: u64,
}

/// What is left of `now - before`, and 0 where the counter went back.
pub open spec fn delta(now: u64, before: u64) -> nat {
    if now >= before {
        (now - before) as nat
    } else {
        0
    }
}

/// `units` in `elapsed_micros` microseconds, as whole units per second, and
/// the largest `u64` where that is too many to hold.
pub open spec fn per_second(units: nat, elapsed_micros: nat) -> u64
    recommends
        elapsed_micros > 0,
{
    let rate = units * 1_000_000 / elapsed_micros;
    if rate > u64::MAX {
        u64::MAX
    } else {
        rate as u64
    }
}

/// The state of a sampler.
#[derive(Debug, Clone, Copy, PartialEq, Eq, Structural)]
pub struct SamplerState {
    /// The snapshot that readers see.
    pub stats: CollectedStats,
    /// When the last sample was taken, in microseconds of a monotonic clock.
    pub last_sample_micros: u64,
}

impl SamplerState {
    /// Whether a sample at `now_micros` is taken rather than skipped.
    pub open spec fn due(self, now_micros: u64) -> bool {
        now_micros >= self.last_sample_micros && now_micros - self.last_sample_micros
            >= MIN_SAMPLE_MICROS
    }

    /// The state after a sample at `now_micros`, at which the epoch clock
    /// showed `now_secs` and the counters read `counters`. A sample less
    /// than a tenth of a second after the last one changes nothing, and
    /// neither does one whose read failed, for which `counters` is none.
    pub open spec fn sample(self, now_micros: u64, now_secs: u64, counters: Option<(u64, u64)>)
        -> SamplerState {
        match counters {
            Some((packets, bytes)) if self.due(now_micros) => {
                let elapsed = (now_micros - self.last_sample_micros) as nat;
                SamplerState {
                    stats: CollectedStats {
                        total_packets: packets,
                        total_bytes: bytes,
                        packets_per_sec: per_second(delta(packets, self.stats.prev_packets), elapsed),
                        bits_per_sec: per_second(delta(bytes, self.stats.prev_bytes) * 8, elapsed),
                        last_update: now_secs,
                        prev_packets: packets,
                        prev_bytes: bytes,
                    },
                    last_sample_micros: now_micros,
                }
            },
            _ => self,
        }
    }

    /// The state of a sampler made at `now_micros`: nothing counted yet.
    pub open spec fn initial(now_micros: u64) -> SamplerState {
        SamplerState {
            stats: CollectedStats {
                total_packets: 0,
                total_bytes: 0,
                packets_per_sec: 0,
                bits_per_sec: 0,
                last_update: 0,
                prev_packets: 0,
                prev_bytes: 0,
            },
            last_sample_micros: now_micros,
        }
    }

    /// What a reader of the snapshot sees.
    pub open spec fn shown(self) -> SystemStats {
        SystemStats {
            total_packets: self.stats.total_packets,
            total_bytes: self.stats.total_bytes,
            packets_per_sec: self.stats.packets_per_sec,
            bits_per_sec: self.stats.bits_per_sec,
        }
    }
}

/// Nothing in no time is a rate of zero.
pub proof fn lemma_zero_rate(elapsed_micros: nat)
    requires
        elapsed_micros > 0,
    ensures
        per_second(0, elapsed_micros) == 0,
{
    assert(0nat * 1_000_000 / elapsed_micros == 0) by (nonlinear_arith)
        requires
            elapsed_micros > 0,
    ;
}

/// Two samples in a row that are both taken and read the same counters:
/// the second shows rates of zero and the same totals as the first.
pub proof fn lemma_same_counters_zero_rates(
    s: SamplerState,
    first_micros: u64,
    first_secs: u64,
    second_micros: u64,
    second_secs: u64,
    packets: u64,
    bytes: u64,
)
    requires
        s.due(first_micros),
        s.sample(first_micros, first_secs, Some((packets, bytes))).due(second_micros),
    ensures
        ({
            let first = s.sample(first_micros, first_secs, Some((packets, bytes)));
            let second = first.sample(second_micros, second_secs, Some((packets, bytes)));
            &&& second.stats.packets_per_sec == 0
            &&& second.stats.bits_per_sec == 0
            &&& second.stats.total_packets == first.stats.total_packets
            &&& second.stats.total_bytes == first.stats.total_bytes
        }),
{
    lemma_zero_rate((second_micros - first_micros) as nat);
}

/// A sample that is skipped, or whose read failed, leaves the snapshot as it was.
pub proof fn lemma_skipped_sample(
    s: SamplerState,
    now_micros: u64,
    now_secs: u64,
    counters: Option<(u64, u64)>,
)
    requires
        !s.due(now_micros) || counters is None,
    ensures
        s.sample(now_micros, now_secs, counters) == s,
{
}

/// A sampler that has seen no packet, however often it sampled, shows
/// totals and rates of zero.
pub proof fn lemma_no_traffic(s: SamplerState, now_micros: u64, now_secs: u64)
    requires
        s.stats.prev_packets == 0,
        s.stats.prev_bytes == 0,
        s.shown() == (SystemStats {
            total_packets: 0,
            total_bytes: 0,
            packets_per_sec: 0,
            bits_per_sec: 0,
        }),
    ensures
        s.sample(now_micros, now_secs, Some((0, 0))).shown() == s.shown(),
        s.sample(now_micros, now_secs, Some((0, 0))).stats.prev_packets == 0,
        s.sample(now_micros, now_secs, Some((0, 0))).stats.prev_bytes == 0,
{
    if s.due(now_micros) {
        lemma_zero_rate((now_micros - s.last_sample_micros) as nat);
    }
}

/// `units` in `elapsed_micros` microseconds, as whole units per second.
pub fn rate_per_second(units: u128, elapsed_micros: u64) -> (r: u64)
    requires
        elapsed_micros > 0,
        units <= 8 * u64::MAX,
    ensures
        r == per_second(units as nat, elapsed_micros as nat),
{
    let scaled: u128 = units * 1_000_000;
    let rate: u128 = scaled / (elapsed_micros as u128);
    if rate > u64::MAX as u128 {
        u64::MAX
    } else {
        rate as u64
    }
}

/// The telemetry sampler.
pub struct TelemetryCollector {
    state: SamplerState,
    log_stats: bool,
    interval: u64,
}

impl View for TelemetryCollector {
    type V = SamplerState;

    closed spec fn view(&self) -> SamplerState {
        self.state
    }
}

impl TelemetryCollector {
    /// A sampler made at `now_micros` of the monotonic clock, which has
    /// counted nothing yet.
    pub fn new(config: &DaemonConfig, now_micros: u64) -> (r: TelemetryCollector)
        ensures
            r@ == SamplerState::initial(now_micros),
            r.interval_secs() == config.telemetry.interval,
            r.logs() == config.telemetry.log_stats,
    {
        TelemetryCollector {
            state: SamplerState {
                stats: CollectedStats {
                    total_packets: 0,
                    total_bytes: 0,
                    packets_per_sec: 0,
                    bits_per_sec: 0,
                    last_update: 0,
                    prev_packets: 0,
                    prev_bytes: 0,
                },
                last_sample_micros: now_micros,
            },
            log_stats: config.telemetry.log_stats,
            interval: config.telemetry.interval,
        }
    }

    /// Seconds between two samples, as configured.
    pub closed spec fn interval_secs(&self) -> u64 {
        self.interval
    }

    /// Whether each sample is to be logged, as configured.
    pub closed spec fn logs(&self) -> bool {
        self.log_stats
    }

    /// Seconds between two samples, as configured.
    pub fn interval(&self) -> (r: u64)
        ensures
            r == self.interval_secs(),
    {
        self.interval
    }

    /// Whether each sample is to be logged, as configured.
    pub fn log_stats(&self) -> (r: bool)
        ensures
            r == self.logs(),
    {
        self.log_stats
    }

    /// Takes a sample at `now_micros` of the monotonic clock, at which the
    /// epoch clock showed `now_secs` and the aggregate counters read
    /// `counters`, none where the read failed. Returns whether a new
    /// snapshot was published. A sample that comes too early is skipped
    /// whatever was read; one that is due and whose read failed fails with
    /// `MapReadFailed`, and the snapshot stays.
    pub fn collect_stats(&mut self, now_micros: u64, now_secs: u64, counters: Option<(u64, u64)>)
        -> (r: Result<bool, GuardError>)
        ensures
            final(self)@ == old(self)@.sample(now_micros, now_secs, counters),
            r == if !old(self)@.due(now_micros) {
                Ok::<bool, GuardError>(false)
            } else if counters is None {
                Err::<bool, GuardError>(GuardError::MapReadFailed)
            } else {
                Ok::<bool, GuardError>(true)
            },
            final(self).interval_secs() == old(self).interval_secs(),
            final(self).logs() == old(self).logs(),
    {
        if now_micros < self.state.last_sample_micros {
            return Ok(false);
        }
        let elapsed: u64 = now_micros - self.state.last_sample_micros;
        if elapsed < MIN_SAMPLE_MICROS {
            return Ok(false);
        }
        match counters {
            None => Err(GuardError::MapReadFailed),
            Some((packets, bytes)) => {
                let packets_diff = packets.saturating_sub(self.state.stats.prev_packets);
                let bytes_diff = bytes.saturating_sub(self.state.stats.prev_bytes);
                self.state = SamplerState {
                    stats: CollectedStats {
                        total_packets: packets,
                        total_bytes: bytes,
                        packets_per_sec: rate_per_second(packets_diff as u128, elapsed),
                        bits_per_sec: rate_per_second(bytes_diff as u128 * 8, elapsed),
                        last_update: now_secs,
                        prev_packets: packets,
                        prev_bytes: bytes,
                    },
                    last_sample_micros: now_micros,
                };
                Ok(true)
            },
        }
    }

    /// The snapshot.
    pub fn get_stats(&self) -> (r: SystemStats)
        ensures
            r == self@.shown(),
    {
        SystemStats {
            total_packets: self.state.stats.total_packets,
            total_bytes: self.state.stats.total_bytes,
            packets_per_sec: self.state.stats.packets_per_sec,
            bits_per_sec: self.state.stats.bits_per_sec,
        }
    }

    /// The latest sample with the counters it was taken from.
    pub fn collected(&self) -> (r: CollectedStats)
        ensures
            r == self@.stats,
    {
        self.state.stats
    }
}

} // verus!
