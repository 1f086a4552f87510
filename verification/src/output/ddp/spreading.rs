//! Packet spreading distributes the DDP packets of a frame across the frame
//! interval, so the receiver's input buffer does not take the whole frame
//! in one burst. Durations are in nanoseconds.

use vstd::prelude::*;

verus! {

pub struct SpreadConfig {
    pub min_spacing_ns: u64,
    pub max_sleeps: u32,
}

#[derive(Debug, Clone, Copy, PartialEq, Eq, Structural)]
pub struct Plan {
    pub spacing_ns: Option<u64>,
    pub group_n: u32,
}

impl Plan {
    /// No spreading: no spacing, one packet per group.
    pub fn none() -> (r: Plan)
        ensures
            r == plan_none(),
    {
        Plan { spacing_ns: None, group_n: 1 }
    }
}

pub open spec fn plan_none() -> Plan {
    Plan { spacing_ns: None, group_n: 1 }
}

pub open spec fn ceil_div(a: int, b: int) -> int {
    (a + b - 1) / b
}

/// Packets per group: enough for the per-packet time to reach the minimum
/// spacing (when it is below it), and at least enough to keep the number of
/// sleeps within `max_sleeps` (when that is set).
pub open spec fn group_size(pkt_count: u32, interval: u64, cfg: SpreadConfig) -> u32 {
    let ideal: int = (interval as int) / (pkt_count as int);
    let g: u32 = if ideal > 0 && ideal < cfg.min_spacing_ns {
        let c = ceil_div(cfg.min_spacing_ns as int, ideal);
        ((if c >= 1 { c } else { 1 }) % 0x1_0000_0000) as u32
    } else {
        1
    };
    if cfg.max_sleeps > 0 {
        let per = ceil_div(pkt_count as int, cfg.max_sleeps as int);
        let per: int = if per >= 1 { per } else { 1 };
        if g >= per { g } else { per as u32 }
    } else {
        g
    }
}

/// The plan for `pkt_count` packets over a frame interval: none for zero
/// packets or a zero interval; otherwise the group size and the spacing
/// between groups (the per-packet share of the interval times the group
/// size, capped at the interval).
pub open spec fn spread_plan(pkt_count: u32, interval: u64, cfg: SpreadConfig) -> Plan {
    if pkt_count == 0 || interval == 0 {
        plan_none()
    } else {
        let ideal: int = (interval as int) / (pkt_count as int);
        let g = group_size(pkt_count, interval, cfg);
        let s: int = ideal * g;
        Plan { spacing_ns: Some((if s > interval { interval as int } else { s }) as u64), group_n: g }
    }
}

/// Multiplying a duration by the group size stays within the range of a
/// duration (about 2^64 seconds).
pub open spec fn spread_fits(pkt_count: u32, interval: u64, cfg: SpreadConfig) -> bool {
    pkt_count == 0 || interval == 0 || ((interval as int) / (pkt_count as int)) * group_size(pkt_count, interval, cfg)
        < 0x1_0000_0000_0000_0000 * 1_000_000_000
}

/// The group size (see [`group_size`]) of a plan with packets and time.
fn group_size_of(pkt_count: u32, frame_interval_ns: u64, cfg: &SpreadConfig) -> (g: u32)
    requires
        pkt_count > 0,
        frame_interval_ns > 0,
    ensures
        g == group_size(pkt_count, frame_interval_ns, *cfg),
{
    let ideal: u64 = frame_interval_ns / (pkt_count as u64);
    let mut group_n: u32 = 1;
    if ideal > 0 && ideal < cfg.min_spacing_ns {
        let c: u64 = (cfg.min_spacing_ns - 1) / ideal + 1;
        assert(c as int == ceil_div(cfg.min_spacing_ns as int, ideal as int)) by (nonlinear_arith)
            requires
                c as int == (cfg.min_spacing_ns as int - 1) / (ideal as int) + 1,
                ideal > 0,
                cfg.min_spacing_ns >= 1,
        ;
        let c1: u64 = if c >= 1 { c } else { 1 };
        group_n = (c1 % 0x1_0000_0000u64) as u32;
    }
    if cfg.max_sleeps > 0 {
        let per: u32 = (pkt_count - 1) / cfg.max_sleeps + 1;
        assert(per as int == ceil_div(pkt_count as int, cfg.max_sleeps as int)) by (nonlinear_arith)
            requires
                per as int == (pkt_count as int - 1) / (cfg.max_sleeps as int) + 1,
                cfg.max_sleeps > 0,
                pkt_count >= 1,
        ;
        let per1: u32 = if per >= 1 { per } else { 1 };
        if per1 > group_n {
            group_n = per1;
        }
    }
    group_n
}

/// Whether the plan's spacing can be computed (see [`spread_fits`]).
pub fn plan_fits(pkt_count: u32, frame_interval_ns: u64, cfg: &SpreadConfig) -> (r: bool)
    ensures
        r == spread_fits(pkt_count, frame_interval_ns, *cfg),
{
    if pkt_count == 0 || frame_interval_ns == 0 {
        return true;
    }
    let ideal: u64 = frame_interval_ns / (pkt_count as u64);
    let g: u32 = group_size_of(pkt_count, frame_interval_ns, cfg);
    assert((ideal as int) * (g as int) < 0x1_0000_0000_0000_0000 * 0x1_0000_0000) by (nonlinear_arith)
        requires
            ideal < 0x1_0000_0000_0000_0000,
            g < 0x1_0000_0000,
    ;
    let s: u128 = (ideal as u128) * (g as u128);
    s < 0x1_0000_0000_0000_0000u128 * 1_000_000_000u128
}

/// Computes the spacing and group size (see [`spread_plan`]).
pub fn compute_spacing_and_group(pkt_count: u32, frame_interval_ns: u64, cfg: &SpreadConfig) -> (r: Plan)
    requires
        spread_fits(pkt_count, frame_interval_ns, *cfg),
    ensures
        r == spread_plan(pkt_count, frame_interval_ns, *cfg),
{
    if pkt_count == 0 || frame_interval_ns == 0 {
        return Plan::none();
    }
    let ideal: u64 = frame_interval_ns / (pkt_count as u64);
    let group_n: u32 = group_size_of(pkt_count, frame_interval_ns, cfg);
    let s: u128 = (ideal as u128) * (group_n as u128);
    let spacing: u64 = if s > frame_interval_ns as u128 {
        frame_interval_ns
    } else {
        s as u64
    };
    Plan { spacing_ns: Some(spacing), group_n }
}

} // verus!
