//! Statistics sampler: turns the transport's raw counters into the figures
//! that the message layer publishes for a connection.
//!
//! Round-trip time and packet loss are refreshed on every tick. Throughput is
//! an estimate over a fixed window: a timer collects the tick durations, and
//! on the tick on which it reaches the sampling period the byte counters are
//! converted to a rate and the host clears them.
//!
//! All figures are exact integers. Time is counted in nanoseconds, and a
//! ratio is given by its two terms, so that the host alone decides how to
//! round.

use vstd::prelude::*;

verus! {

/// Length of the window over which throughput is measured: a tenth of a second.
pub const BYTES_PER_SEC_PERIOD_NANOS: u64 = 100_000_000;

/// Nanoseconds in one second.
pub const NANOS_PER_SECOND: u64 = 1_000_000_000;

/// Largest datagram that is assumed to pass before the transport has
/// measured the path of a new connection.
pub const DEFAULT_INITIAL_MAX_DATAGRAM_SIZE: usize = 1200;

/// Share of lost packets in percent, as the exact ratio
/// `numerator / denominator`.
#[derive(Clone, Copy, Debug, PartialEq, Eq, Structural)]
pub struct PacketLoss {
    /// A hundred times the number of lost packets.
    pub numerator: u128,
    /// The number of sent packets, or 1 where none was sent. Never 0.
    pub denominator: u64,
}

/// Bytes per second in each direction, measured over one sampling window.
#[derive(Clone, Copy, Debug, PartialEq, Eq, Structural)]
pub struct Throughput {
    /// Bytes received per second.
    pub received_bps: u128,
    /// Bytes sent per second.
    pub sent_bps: u128,
}

/// What the host read from the transport for one connection on one tick.
/// Reading changes nothing in the transport.
#[derive(Clone, Copy, Debug, PartialEq, Eq, Structural)]
pub struct TransportReading {
    /// Round-trip time of the path, in nanoseconds.
    pub rtt_nanos: u64,
    /// Packets that the path lost since the connection opened.
    pub lost_packets: u64,
    /// Packets that were sent since the connection opened.
    pub sent_packets: u64,
    /// Largest datagram that passes at present, where the transport knows it.
    pub max_datagram_size: Option<usize>,
    /// Bytes received since the counter was last cleared.
    pub received_bytes: u64,
    /// Bytes sent since the counter was last cleared.
    pub sent_bytes: u64,
}

/// What the message layer is to be told of one connection after one tick.
#[derive(Clone, Copy, Debug, PartialEq, Eq, Structural)]
pub struct StatisticsUpdate {
    /// Round-trip time of the path, in nanoseconds.
    pub rtt_nanos: u64,
    /// Share of lost packets.
    pub packet_loss: PacketLoss,
    /// New limit on the size of a datagram; `None` leaves the published limit as it is.
    pub max_datagram_size: Option<usize>,
    /// New throughput figures, present on a sampling tick only. Where they
    /// are present the host clears both byte counters of the connection.
    pub throughput: Option<Throughput>,
}

/// Loss in percent: `100 * lost / sent`, and zero where nothing was sent.
pub open spec fn packet_loss_of(lost_packets: u64, sent_packets: u64) -> PacketLoss {
    if sent_packets == 0 {
        PacketLoss { numerator: 0, denominator: 1 }
    } else {
        PacketLoss { numerator: (100 * lost_packets) as u128, denominator: sent_packets }
    }
}

/// The rate at which `bytes` were moved if they were counted over one
/// sampling period: the count divided by the period in seconds.
pub open spec fn bytes_per_second_of(bytes: u64) -> u128 {
    (bytes * NANOS_PER_SECOND / BYTES_PER_SEC_PERIOD_NANOS as int) as u128
}

/// The rates of both directions on a sampling tick.
pub open spec fn throughput_of(reading: TransportReading) -> Throughput {
    Throughput {
        received_bps: bytes_per_second_of(reading.received_bytes),
        sent_bps: bytes_per_second_of(reading.sent_bytes),
    }
}

/// The update that a reading gives. `sample_due` says whether this tick
/// closes a sampling window.
pub open spec fn statistics_update_of(reading: TransportReading, sample_due: bool) -> StatisticsUpdate {
    StatisticsUpdate {
        rtt_nanos: reading.rtt_nanos,
        packet_loss: packet_loss_of(reading.lost_packets, reading.sent_packets),
        max_datagram_size: reading.max_datagram_size,
        throughput: if sample_due {
            Some(throughput_of(reading))
        } else {
            None
        },
    }
}

/// Computes the loss percentage from the path's packet counters.
///
/// A connection that has sent nothing has lost nothing: the ratio is then
/// `0 / 1`. The denominator is never zero.
pub fn packet_loss(lost_packets: u64, sent_packets: u64) -> (loss: PacketLoss)
    ensures
        loss == packet_loss_of(lost_packets, sent_packets),
        loss.denominator > 0,
        sent_packets == 0 ==> loss.numerator == 0,
        sent_packets > 0 ==> loss.numerator == 100 * lost_packets && loss.denominator == sent_packets,
{
    if sent_packets == 0 {
        PacketLoss { numerator: 0, denominator: 1 }
    } else {
        PacketLoss { numerator: 100u128 * (lost_packets as u128), denominator: sent_packets }
    }
}

/// Converts a byte count taken over one sampling period into bytes per second.
pub fn bytes_per_second(bytes: u64) -> (rate: u128)
    ensures
        rate == bytes_per_second_of(bytes),
        rate == 10 * bytes,
{
    (bytes as u128) * (NANOS_PER_SECOND as u128) / (BYTES_PER_SEC_PERIOD_NANOS as u128)
}

/// Computes the update that a reading gives.
pub fn statistics_update(reading: &TransportReading, sample_due: bool) -> (update: StatisticsUpdate)
    ensures
        update == statistics_update_of(*reading, sample_due),
        update.throughput is Some <==> sample_due,
{
    StatisticsUpdate {
        rtt_nanos: reading.rtt_nanos,
        packet_loss: packet_loss(reading.lost_packets, reading.sent_packets),
        max_datagram_size: reading.max_datagram_size,
        throughput: if sample_due {
            Some(
                Throughput {
                    received_bps: bytes_per_second(reading.received_bytes),
                    sent_bps: bytes_per_second(reading.sent_bytes),
                },
            )
        } else {
            None
        },
    }
}

/// The timer that decides on which ticks throughput is sampled.
#[derive(Clone, Copy, Debug)]
pub struct StatisticsSampler {
    elapsed_nanos: u64,
}

/// Whether a timer that stands at `elapsed` reaches the sampling period when
/// `delta_nanos` more pass.
pub open spec fn sample_due(elapsed: nat, delta_nanos: u64) -> bool {
    elapsed + delta_nanos >= BYTES_PER_SEC_PERIOD_NANOS
}

/// Where a timer that stood at `elapsed` stands after a tick of
/// `delta_nanos`: back at zero if the tick closed a window, else further by
/// the tick's length.
pub open spec fn elapsed_after(elapsed: nat, delta_nanos: u64) -> nat {
    if sample_due(elapsed, delta_nanos) {
        0
    } else {
        elapsed + delta_nanos as nat
    }
}

impl StatisticsSampler {
    /// Time collected in the open window, in nanoseconds.
    pub closed spec fn elapsed(&self) -> nat {
        self.elapsed_nanos as nat
    }

    /// A timer at the start of a window.
    pub fn new() -> (sampler: Self)
        ensures
            sampler.elapsed() == 0,
    {
        StatisticsSampler { elapsed_nanos: 0 }
    }

    /// Time collected in the open window, in nanoseconds.
    pub fn elapsed_nanos(&self) -> (nanos: u64)
        ensures
            nanos == self.elapsed(),
    {
        self.elapsed_nanos
    }

    /// Advances the timer by the length of one tick and says whether the
    /// tick closes a sampling window. If it does, the timer starts again from
    /// zero.
    pub fn advance(&mut self, delta_nanos: u64) -> (due: bool)
        ensures
            due == sample_due(old(self).elapsed(), delta_nanos),
            final(self).elapsed() == elapsed_after(old(self).elapsed(), delta_nanos),
    {
        if delta_nanos >= BYTES_PER_SEC_PERIOD_NANOS || self.elapsed_nanos
            >= BYTES_PER_SEC_PERIOD_NANOS - delta_nanos {
            self.elapsed_nanos = 0;
            true
        } else {
            self.elapsed_nanos = self.elapsed_nanos + delta_nanos;
            false
        }
    }
}

} // verus!
