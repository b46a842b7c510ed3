//! Quantized space-time coordinates.
//!
//! A topology fixes, per DNA, the origin time and the atomic units of
//! space and time.  The ring `[0, 2^32)` is divided into equal space
//! quanta; time from the origin onward is divided into equal quanta of
//! microseconds.  Ops younger than the recent cutoff are excluded from
//! historical regions and handled by recency gossip instead.

use vstd::prelude::*;

verus! {

/// The ring size divided by the number of space quanta.
pub const SPACE_QUANTUM: u32 = 0x100000;

/// Number of space quanta on the ring.
pub const SPACE_QUANTA_COUNT: u32 = 4096;

/// The standard time quantum: five minutes, in microseconds.
pub const STANDARD_TIME_QUANTUM_US: u64 = 300000000;

/// Fixed per-DNA parameters of the quantized space-time.
#[derive(Clone, Copy, Debug, PartialEq, Eq, Structural)]
pub struct Topology {
    /// Microseconds per time quantum.
    pub time_quantum_us: u64,
    /// The chain's zero of time, in microseconds.
    pub time_origin_us: i64,
    /// Width of the recent window in time quanta; ops younger than this
    /// are left to recency gossip.
    pub recent_cutoff_quanta: u32,
}

impl Topology {
    /// The standard topology at a given origin: five-minute time quanta
    /// and a two-quantum recent cutoff.
    pub fn standard(time_origin_us: i64) -> (r: Topology)
        ensures
            r.time_quantum_us == STANDARD_TIME_QUANTUM_US,
            r.time_origin_us == time_origin_us,
            r.recent_cutoff_quanta == 2,
    {
        Topology {
            time_quantum_us: STANDARD_TIME_QUANTUM_US,
            time_origin_us,
            recent_cutoff_quanta: 2,
        }
    }

    /// A topology is usable when its time quantum is positive.
    pub open spec fn wf(self) -> bool {
        self.time_quantum_us > 0
    }

    /// The time quantum containing a microsecond timestamp, for
    /// timestamps at or after the origin.
    pub open spec fn spec_time_quantum(self, ts_us: i64) -> int
        recommends
            self.wf(),
            ts_us >= self.time_origin_us,
    {
        (ts_us - self.time_origin_us) / (self.time_quantum_us as int)
    }

    /// The time quantum containing a timestamp; `None` before the
    /// origin or beyond the quantum range.
    pub fn time_quantum(&self, ts_us: i64) -> (r: Option<u32>)
        requires
            self.wf(),
        ensures
            match r {
                Option::Some(q) => ts_us >= self.time_origin_us && q as int
                    == self.spec_time_quantum(ts_us) && self.spec_time_quantum(ts_us) <= u32::MAX,
                Option::None => ts_us < self.time_origin_us || self.spec_time_quantum(ts_us)
                    > u32::MAX,
            },
    {
        let delta: i128 = (ts_us as i128) - (self.time_origin_us as i128);
        if delta < 0 {
            return Option::None;
        }
        let q: i128 = delta / (self.time_quantum_us as i128);
        if q > u32::MAX as i128 {
            Option::None
        } else {
            Option::Some(q as u32)
        }
    }

    /// The space quantum containing a ring location.
    pub fn space_quantum(&self, loc: u32) -> (r: u32)
        ensures
            r == spec_space_quantum(loc),
            r < SPACE_QUANTA_COUNT,
    {
        let r = loc / SPACE_QUANTUM;
        proof {
            let l = loc;
            assert(l / 0x100000u32 < 4096) by (bit_vector);
        }
        r
    }
}

/// The space quantum containing a ring location.
pub open spec fn spec_space_quantum(loc: u32) -> u32 {
    loc / SPACE_QUANTUM
}

} // verus!
