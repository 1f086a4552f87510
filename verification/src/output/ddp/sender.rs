//! The decisions of the per-stream DDP sender: how many copies of each
//! packet go out, whether a frame's packets are spread over its interval,
//! when the sender pauses between groups of packets, and the counters it
//! logs. The sender's task performs the sends and the pauses.

use vstd::prelude::*;

use crate::output::ddp::packet::DDP_MAX_DATA;
use crate::output::ddp::spreading::ceil_div;
use crate::output::ddp::spreading::compute_spacing_and_group;
use crate::output::ddp::spreading::spread_fits;
use crate::output::ddp::spreading::spread_plan;
use crate::output::ddp::spreading::Plan;
use crate::output::ddp::spreading::SpreadConfig;
use crate::output::metrics::after_tick;
use crate::output::metrics::elapsed;
use crate::output::metrics::RateMeter;

verus! {

/// The number of DDP packets a payload of `bytes` splits into.
pub open spec fn packet_count(bytes: int) -> int {
    ceil_div(bytes, DDP_MAX_DATA as int)
}

/// Number of DDP packets a payload of `bytes` will split into.
pub fn packets_for(bytes: usize) -> (r: usize)
    ensures
        r == packet_count(bytes as int),
{
    let q: usize = bytes / DDP_MAX_DATA;
    if bytes % DDP_MAX_DATA == 0 {
        q
    } else {
        q + 1
    }
}

/// Copies of each packet sent for a frame: the last frame of a still image
/// goes out `still_redundancy` times (at least once), every other frame once.
pub open spec fn redundancy(is_still: bool, is_last_frame: bool, still_redundancy: u32) -> u32 {
    if is_still && is_last_frame {
        if still_redundancy >= 1 {
            still_redundancy
        } else {
            1
        }
    } else {
        1
    }
}

pub fn frame_redundancy(is_still: bool, is_last_frame: bool, still_redundancy: u32) -> (r: u32)
    ensures
        r == redundancy(is_still, is_last_frame, still_redundancy),
{
    if is_still && is_last_frame {
        if still_redundancy >= 1 {
            still_redundancy
        } else {
            1
        }
    } else {
        1
    }
}

/// The sender's spreading settings.
#[derive(Debug, Clone, Copy)]
pub struct SpreadCfg {
    pub enabled: bool,
    pub max_fps: u32,
    pub min_spacing_ns: u64,
    pub max_sleeps: u32,
}

pub open spec fn spreading_of(cfg: SpreadCfg) -> SpreadConfig {
    SpreadConfig { min_spacing_ns: cfg.min_spacing_ns, max_sleeps: cfg.max_sleeps }
}

/// The packet count of a payload as the spreading plan takes it (a 32-bit
/// count, as the sender converts it).
pub open spec fn plan_packets(payload_bytes: int) -> u32 {
    packet_count(payload_bytes) as u32
}

/// The spreading of a frame: none when spreading is off or the frame rate
/// is above `max_fps` (`within_max_fps` is false), and none when the plan
/// has no spacing; otherwise the plan for the payload's packets over the
/// frame interval.
pub open spec fn spread_for(cfg: SpreadCfg, within_max_fps: bool, interval_ns: u64, payload_bytes: int) -> Option<
    Plan,
> {
    if !cfg.enabled || !within_max_fps {
        None
    } else {
        let p = spread_plan(plan_packets(payload_bytes), interval_ns, spreading_of(cfg));
        if p.spacing_ns is Some {
            Some(p)
        } else {
            None
        }
    }
}

/// Whether the plan's spacing can be computed for these inputs.
pub open spec fn spread_computable(cfg: SpreadCfg, within_max_fps: bool, interval_ns: u64, payload_bytes: int) -> bool {
    cfg.enabled && within_max_fps ==> spread_fits(plan_packets(payload_bytes), interval_ns, spreading_of(cfg))
}

/// Computes the spreading plan of a frame (see [`spread_for`]).
pub fn plan_spread(cfg: &SpreadCfg, within_max_fps: bool, interval_ns: u64, payload_bytes: usize) -> (r: Option<Plan>)
    requires
        spread_computable(*cfg, within_max_fps, interval_ns, payload_bytes as int),
    ensures
        r == spread_for(*cfg, within_max_fps, interval_ns, payload_bytes as int),
{
    if !cfg.enabled || !within_max_fps {
        return None;
    }
    let sc = SpreadConfig { min_spacing_ns: cfg.min_spacing_ns, max_sleeps: cfg.max_sleeps };
    let pkt_count: u32 = packets_for(payload_bytes) as u32;
    let plan = compute_spacing_and_group(pkt_count, interval_ns, &sc);
    if plan.spacing_ns.is_some() {
        Some(plan)
    } else {
        None
    }
}

/// `a + b`, or the largest `u32` when that overflows.
pub open spec fn sat_add(a: u32, b: u32) -> u32 {
    if a + b > u32::MAX {
        u32::MAX
    } else {
        (a + b) as u32
    }
}

/// The pacing of one frame's packets: counts of unique and physical
/// packets, and, while spreading, the group in progress and the number of
/// groups completed.
pub struct FramePacer {
    pub plan: Option<Plan>,
    pub slot: u32,
    pub group_left: u32,
    pub unique: u32,
    pub physical: u32,
}

/// The spacing between groups while the plan spreads packets.
pub open spec fn pacer_spacing(plan: Option<Plan>) -> Option<u64> {
    match plan {
        Some(p) => p.spacing_ns,
        None => None,
    }
}

impl FramePacer {
    /// The pacing at the start of a frame: no packets yet, a full first
    /// group.
    pub fn new(plan: Option<Plan>) -> (r: FramePacer)
        ensures
            r.plan == plan,
            r.slot == 0,
            r.unique == 0,
            r.physical == 0,
            r.group_left == (match plan {
                Some(p) => p.group_n,
                None => 1,
            }),
    {
        let group_left: u32 = match plan {
            Some(p) => p.group_n,
            None => 1,
        };
        FramePacer { plan, slot: 0, group_left, unique: 0, physical: 0 }
    }

    /// Records one unique packet sent `copies` times. While spreading, a
    /// packet that completes a group starts the next: the sender then
    /// waits until `spacing * slot` after the frame's start, the offset
    /// returned here (in nanoseconds).
    pub fn after_packet(&mut self, copies: u32) -> (pause: Option<u128>)
        requires
            old(self).slot < u32::MAX,
        ensures
            final(self).plan == old(self).plan,
            final(self).unique == sat_add(old(self).unique, 1),
            final(self).physical == sat_add(old(self).physical, copies),
            match pacer_spacing(old(self).plan) {
                None => {
                    &&& pause is None
                    &&& final(self).slot == old(self).slot
                    &&& final(self).group_left == old(self).group_left
                },
                Some(spacing) => {
                    let left: u32 = if old(self).group_left >= 1 {
                        (old(self).group_left - 1) as u32
                    } else {
                        0
                    };
                    if left == 0 {
                        &&& final(self).slot == old(self).slot + 1
                        &&& pause == Some((spacing * (old(self).slot + 1)) as u128)
                        &&& final(self).group_left == old(self).plan->0.group_n
                    } else {
                        &&& pause is None
                        &&& final(self).slot == old(self).slot
                        &&& final(self).group_left == left
                    }
                },
            },
    {
        self.physical = self.physical.saturating_add(copies);
        self.unique = self.unique.saturating_add(1);
        match self.plan {
            Some(p) => match p.spacing_ns {
                Some(spacing) => {
                    self.group_left = self.group_left.saturating_sub(1);
                    if self.group_left == 0 {
                        self.slot = self.slot + 1;
                        self.group_left = p.group_n;
                        assert((spacing as int) * (self.slot as int) < 0x1_0000_0000_0000_0000 * 0x1_0000_0000)
                            by (nonlinear_arith)
                            requires
                                spacing < 0x1_0000_0000_0000_0000,
                                self.slot < 0x1_0000_0000,
                        ;
                        Some((spacing as u128) * (self.slot as u128))
                    } else {
                        None
                    }
                },
                None => None,
            },
            None => None,
        }
    }
}

/// The counters of a sender's log line: frames, unique and physical packets
/// within a window, the physical packets sent since the stream started, and
/// whether the last frame was spread.
pub struct SenderMetrics {
    pub frames: RateMeter,
    pub unique_packets: RateMeter,
    pub physical_packets: RateMeter,
    pub log_interval_ns: u64,
    pub last_log_ns: u64,
    pub tx_total: u64,
    pub spread_active: bool,
}

/// `a + b`, or the largest `u64` when that overflows.
pub open spec fn sat_add64(a: u64, b: u64) -> u64 {
    if a + b > u64::MAX {
        u64::MAX
    } else {
        (a + b) as u64
    }
}

impl SenderMetrics {
    /// Counters that log every `log_interval_ns`, over a window of that
    /// interval but at least a second, starting at `now_ns`.
    pub fn new(log_interval_ns: u64, now_ns: u64) -> (r: SenderMetrics)
        ensures
            r.frames.window() == (if log_interval_ns >= 1_000_000_000 {
                log_interval_ns
            } else {
                1_000_000_000
            }),
            r.unique_packets.window() == r.frames.window(),
            r.physical_packets.window() == r.frames.window(),
            r.frames.entries().len() == 0,
            r.unique_packets.entries().len() == 0,
            r.physical_packets.entries().len() == 0,
            r.log_interval_ns == log_interval_ns,
            r.last_log_ns == now_ns,
            r.tx_total == 0,
            !r.spread_active,
    {
        let window: u64 = if log_interval_ns >= 1_000_000_000 {
            log_interval_ns
        } else {
            1_000_000_000
        };
        SenderMetrics {
            frames: RateMeter::new(window),
            unique_packets: RateMeter::new(window),
            physical_packets: RateMeter::new(window),
            log_interval_ns,
            last_log_ns: now_ns,
            tx_total: 0,
            spread_active: false,
        }
    }

    /// Records a frame sent at `now_ns`; returns whether a log line is due
    /// (a log interval has passed since the last one), which restarts the
    /// interval.
    pub fn record_frame(&mut self, now_ns: u64, unique: u32, physical: u32, spread_active: bool) -> (log_due: bool)
        ensures
            final(self).frames.window() == old(self).frames.window(),
            final(self).unique_packets.window() == old(self).unique_packets.window(),
            final(self).physical_packets.window() == old(self).physical_packets.window(),
            final(self).frames.entries() == after_tick(
                old(self).frames.entries(),
                old(self).frames.window(),
                now_ns,
                1,
            ),
            final(self).unique_packets.entries() == after_tick(
                old(self).unique_packets.entries(),
                old(self).unique_packets.window(),
                now_ns,
                unique,
            ),
            final(self).physical_packets.entries() == after_tick(
                old(self).physical_packets.entries(),
                old(self).physical_packets.window(),
                now_ns,
                physical,
            ),
            final(self).tx_total == sat_add64(old(self).tx_total, physical as u64),
            final(self).spread_active == spread_active,
            final(self).log_interval_ns == old(self).log_interval_ns,
            log_due == (elapsed(now_ns, old(self).last_log_ns) >= old(self).log_interval_ns),
            final(self).last_log_ns == (if log_due {
                now_ns
            } else {
                old(self).last_log_ns
            }),
    {
        self.frames.tick(now_ns);
        self.unique_packets.tick_n(now_ns, unique);
        self.physical_packets.tick_n(now_ns, physical);
        self.tx_total = self.tx_total.saturating_add(physical as u64);
        self.spread_active = spread_active;
        let since: u64 = if now_ns >= self.last_log_ns {
            now_ns - self.last_log_ns
        } else {
            0
        };
        if since >= self.log_interval_ns {
            self.last_log_ns = now_ns;
            true
        } else {
            false
        }
    }
}

} // verus!
