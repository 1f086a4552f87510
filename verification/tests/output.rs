use bytes::BytesMut;
use media_proxy::output::ddp::packet::{
    iter_packets, next_sequence, DdpHeader, DDP_FLAG_PUSH, DDP_HEADER_LEN, DDP_MAX_DATA, DDP_PIXEL_CFG_RGB888,
};
use media_proxy::output::ddp::pixel::{encode_frame, endian_for, rgb888_to_565, Endian};
use media_proxy::output::ddp::spreading::{compute_spacing_and_group, Plan, SpreadConfig};
use media_proxy::output::metrics::RateMeter;
use media_proxy::output::sink::{PixelFormat, StreamId};

const MS: u64 = 1_000_000;

// ---- packet ----

#[test]
fn sequence_wraps_1_through_15() {
    let mut s: u8 = 1;
    for expected in [2u8, 3, 4, 5, 6, 7, 8, 9, 10, 11, 12, 13, 14, 15, 1, 2] {
        s = next_sequence(s);
        assert_eq!(s, expected);
    }
}

#[test]
fn sequence_never_zero() {
    for s in 1u8..=15 {
        assert_ne!(next_sequence(s), 0);
    }
}

#[test]
fn header_encodes_to_10_bytes() {
    let h = DdpHeader {
        flags: 0x41,
        seq: 1,
        cfg: DDP_PIXEL_CFG_RGB888,
        out_id: 7,
        offset: 0,
        length: 100,
    };
    let mut buf = BytesMut::new();
    h.encode_into(&mut buf);
    assert_eq!(buf.len(), DDP_HEADER_LEN);
    assert_eq!(&buf[..4], &[0x41, 1, DDP_PIXEL_CFG_RGB888, 7]);
    assert_eq!(&buf[4..8], &[0, 0, 0, 0]);
    assert_eq!(&buf[8..10], &100u16.to_be_bytes());
}

#[test]
fn header_offset_is_big_endian() {
    let h = DdpHeader { flags: 0x40, seq: 3, cfg: 0x61, out_id: 2, offset: 0x0102_0304, length: 0x0506 };
    let mut buf = BytesMut::new();
    h.encode_into(&mut buf);
    assert_eq!(&buf[..], &[0x40, 3, 0x61, 2, 1, 2, 3, 4, 5, 6]);
}

#[test]
fn single_packet_has_push_flag() {
    let payload = vec![0u8; 100];
    let packets: Vec<_> = iter_packets(&payload, 1, 1, PixelFormat::Rgb888).into_iter().collect();
    assert_eq!(packets.len(), 1);
    assert_eq!(packets[0].0[0] & DDP_FLAG_PUSH, DDP_FLAG_PUSH);
}

#[test]
fn multi_packet_only_last_has_push() {
    let payload = vec![0u8; DDP_MAX_DATA + 1];
    let packets: Vec<_> = iter_packets(&payload, 1, 1, PixelFormat::Rgb888).into_iter().collect();
    assert_eq!(packets.len(), 2);
    assert_eq!(packets[0].0[0] & DDP_FLAG_PUSH, 0);
    assert_eq!(packets[1].0[0] & DDP_FLAG_PUSH, DDP_FLAG_PUSH);
}

#[test]
fn returned_next_seq_matches_wrap() {
    let payload = vec![0u8; 100];
    let (_pkt, next) = iter_packets(&payload, 1, 15, PixelFormat::Rgb888).into_iter().next().unwrap();
    assert_eq!(next, 1);
}

#[test]
fn packets_carry_offsets_and_chunks() {
    let payload: Vec<u8> = (0..3000u32).map(|i| (i % 251) as u8).collect();
    let packets = iter_packets(&payload, 9, 14, PixelFormat::Rgb565Le);
    assert_eq!(packets.len(), 3);
    let mut joined = Vec::new();
    for (k, (p, next)) in packets.iter().enumerate() {
        assert_eq!(p[2], 0x62);
        assert_eq!(p[3], 9);
        let off = u32::from_be_bytes([p[4], p[5], p[6], p[7]]) as usize;
        let len = u16::from_be_bytes([p[8], p[9]]) as usize;
        assert_eq!(off, k * DDP_MAX_DATA);
        assert_eq!(len, p.len() - DDP_HEADER_LEN);
        joined.extend_from_slice(&p[DDP_HEADER_LEN..]);
        assert_eq!(*next, [15u8, 1, 2][k]);
        assert_eq!(p[1], [14u8, 15, 1][k]);
    }
    assert_eq!(joined, payload);
    assert!(iter_packets(&[], 1, 1, PixelFormat::Rgb888).is_empty());
}

// ---- pixel ----

#[test]
fn black_maps_to_0x0000() {
    let out = rgb888_to_565(&[0, 0, 0], Endian::Le);
    assert_eq!(u16::from_le_bytes([out[0], out[1]]), 0);
}

#[test]
fn white_maps_to_0xffff() {
    let out = rgb888_to_565(&[255, 255, 255], Endian::Le);
    assert_eq!(u16::from_le_bytes([out[0], out[1]]), 0xFFFF);
}

#[test]
fn red_component_occupies_upper_5() {
    let out = rgb888_to_565(&[255, 0, 0], Endian::Le);
    let v = u16::from_le_bytes([out[0], out[1]]);
    assert_eq!(v >> 11, 0x1F);
    assert_eq!(v & 0x07FF, 0);
}

#[test]
fn green_component_occupies_middle_6() {
    let out = rgb888_to_565(&[0, 255, 0], Endian::Le);
    let v = u16::from_le_bytes([out[0], out[1]]);
    assert_eq!((v >> 5) & 0x3F, 0x3F);
}

#[test]
fn blue_component_occupies_lower_5() {
    let out = rgb888_to_565(&[0, 0, 255], Endian::Le);
    let v = u16::from_le_bytes([out[0], out[1]]);
    assert_eq!(v & 0x1F, 0x1F);
}

#[test]
fn be_le_differ_only_in_byte_order() {
    let input = [0xAB, 0xCD, 0xEF];
    let le = rgb888_to_565(&input, Endian::Le);
    let be = rgb888_to_565(&input, Endian::Be);
    assert_eq!([le[0], le[1]], [be[1], be[0]]);
}

#[test]
fn ragged_tail_truncated() {
    let out = rgb888_to_565(&[0, 0, 0, 0xFF], Endian::Le);
    assert_eq!(out.len(), 2);
}

#[test]
fn rounding_of_a_midtone() {
    // 128 -> round(128 * 31 / 255) = 16, round(128 * 63 / 255) = 32.
    let out = rgb888_to_565(&[128, 128, 128], Endian::Be);
    assert_eq!(u16::from_be_bytes([out[0], out[1]]), (16 << 11) | (32 << 5) | 16);
}

#[test]
fn encode_frame_per_format() {
    let input = [1u8, 2, 3, 4, 5, 6];
    assert_eq!(encode_frame(&input, PixelFormat::Rgb888), input.to_vec());
    assert_eq!(encode_frame(&input, PixelFormat::Rgb565Le), rgb888_to_565(&input, Endian::Le));
    assert_eq!(encode_frame(&input, PixelFormat::Rgb565Be), rgb888_to_565(&input, Endian::Be));
    assert_eq!(endian_for(PixelFormat::Rgb888), None);
    assert_eq!(endian_for(PixelFormat::Rgb565Le), Some(Endian::Le));
}

// ---- spreading ----

#[test]
fn zero_packets_yields_no_spreading() {
    let cfg = SpreadConfig { min_spacing_ns: 3 * MS, max_sleeps: 0 };
    assert_eq!(compute_spacing_and_group(0, 33 * MS, &cfg), Plan::none());
}

#[test]
fn zero_interval_yields_no_spreading() {
    let cfg = SpreadConfig { min_spacing_ns: 3 * MS, max_sleeps: 0 };
    assert_eq!(compute_spacing_and_group(10, 0, &cfg), Plan::none());
}

#[test]
fn ideal_above_min_keeps_group_1() {
    let cfg = SpreadConfig { min_spacing_ns: 3 * MS, max_sleeps: 0 };
    let plan = compute_spacing_and_group(10, 33 * MS, &cfg);
    assert_eq!(plan.group_n, 1);
}

#[test]
fn ideal_below_min_groups_up() {
    let cfg = SpreadConfig { min_spacing_ns: 3 * MS, max_sleeps: 0 };
    let plan = compute_spacing_and_group(100, 33 * MS, &cfg);
    assert!(plan.group_n >= 10);
}

#[test]
fn spreading_exact_values() {
    let cfg = SpreadConfig { min_spacing_ns: 3 * MS, max_sleeps: 0 };
    // 33 ms / 100 = 330 us; ceil(3 ms / 330 us) = 10; spacing 3.3 ms.
    assert_eq!(compute_spacing_and_group(100, 33 * MS, &cfg), Plan { spacing_ns: Some(3_300_000), group_n: 10 });
    let cfg = SpreadConfig { min_spacing_ns: 0, max_sleeps: 4 };
    // 10 packets in at most 4 sleeps: groups of 3.
    assert_eq!(compute_spacing_and_group(10, 10 * MS, &cfg), Plan { spacing_ns: Some(3 * MS), group_n: 3 });
    // The spacing never exceeds the interval.
    let cfg = SpreadConfig { min_spacing_ns: 0, max_sleeps: 1 };
    assert_eq!(compute_spacing_and_group(3, 10, &cfg), Plan { spacing_ns: Some(9), group_n: 3 });
}

// ---- metrics ----

#[test]
fn rate_meter_evicts_old_batches() {
    let mut m = RateMeter::new(1000);
    m.tick(100);
    m.tick_n(500, 3);
    m.tick_n(600, 0);
    assert_eq!(m.rate_parts(), Some((3, 400)));
    m.tick(1700);
    // 100 and 500 are older than 1700 - 1000.
    assert_eq!(m.rate_parts(), None);
    m.tick_n(2000, 5);
    assert_eq!(m.rate_parts(), Some((5, 300)));
    assert_eq!(m.gaps(), vec![300]);
}

#[test]
fn tick_n_matches_repeated_tick_for_rate_parts() {
    let mut batched = RateMeter::new(10_000 * MS);
    let mut unitary = RateMeter::new(10_000 * MS);
    for i in 0..10u64 {
        let t = i * 100 * MS;
        batched.tick_n(t, 100);
        for _ in 0..100 {
            unitary.tick(t);
        }
    }
    assert_eq!(batched.rate_parts(), unitary.rate_parts());
    assert_eq!(batched.rate_parts(), Some((999, 900 * MS)));
}

#[test]
fn empty_meter_has_no_rate() {
    let m = RateMeter::new(1000);
    assert_eq!(m.rate_parts(), None);
    assert!(m.gaps().is_empty());
}

// ---- sink ----

#[test]
fn pixel_format_names() {
    assert_eq!(PixelFormat::from_str_canon("RGB888"), Some(PixelFormat::Rgb888));
    assert_eq!(PixelFormat::from_str_canon("rgbw"), Some(PixelFormat::Rgb888));
    assert_eq!(PixelFormat::from_str_canon("rgb565le"), Some(PixelFormat::Rgb565Le));
    assert_eq!(PixelFormat::from_str_canon("Rgb565BE"), Some(PixelFormat::Rgb565Be));
    assert_eq!(PixelFormat::from_str_canon("rgb"), None);
}

#[test]
fn stream_id_label() {
    assert_eq!(StreamId::new(42).label(), "s42");
    assert_eq!(StreamId::new(7), StreamId::new(7));
}

// ---- registry ----

use media_proxy::output::ddp::registry::{DdpKey, DestAddr, RegistryTable};

fn ddp_key(ip: [u8; 4], out: u8) -> DdpKey {
    DdpKey {
        dest: DestAddr::V4(u32::from_be_bytes(ip)),
        output_id: out,
    }
}

#[test]
fn reserve_succeeds_for_new_key() {
    let mut reg = RegistryTable::new();
    let k = ddp_key([127, 0, 0, 1], 1);
    assert_eq!(reg.reserve(k, StreamId::new(1)), None);
    assert_eq!(reg.holder(&k), Some(StreamId::new(1)));
}

#[test]
fn second_reserve_cancels_first() {
    let mut reg = RegistryTable::new();
    let k = ddp_key([127, 0, 0, 1], 1);
    let id1 = StreamId::new(1);
    let id2 = StreamId::new(2);
    assert_eq!(reg.reserve(k, id1), None);
    // The first holder is displaced and is to be cancelled.
    assert_eq!(reg.reserve(k, id2), Some(id1));
    // Its late release leaves the new holder in place.
    assert!(!reg.release(k, id1));
    assert_eq!(reg.holder(&k), Some(id2));
    assert!(reg.release(k, id2));
    assert_eq!(reg.holder(&k), None);
}

#[test]
fn different_keys_coexist() {
    let mut reg = RegistryTable::new();
    assert_eq!(reg.reserve(ddp_key([127, 0, 0, 1], 1), StreamId::new(1)), None);
    assert_eq!(reg.reserve(ddp_key([127, 0, 0, 1], 2), StreamId::new(2)), None);
    assert_eq!(reg.reserve(ddp_key([127, 0, 0, 2], 1), StreamId::new(3)), None);
    assert_eq!(reg.holder(&ddp_key([127, 0, 0, 1], 1)), Some(StreamId::new(1)));
    assert_eq!(reg.holder(&ddp_key([127, 0, 0, 1], 2)), Some(StreamId::new(2)));
    assert_eq!(reg.holder(&ddp_key([127, 0, 0, 2], 1)), Some(StreamId::new(3)));
}

// ---- sender decisions ----

use media_proxy::output::ddp::sender::{frame_redundancy, packets_for, plan_spread, FramePacer, SenderMetrics, SpreadCfg};

#[test]
fn packet_counts_round_up() {
    assert_eq!(packets_for(0), 0);
    assert_eq!(packets_for(1), 1);
    assert_eq!(packets_for(1440), 1);
    assert_eq!(packets_for(1441), 2);
    assert_eq!(packets_for(64 * 64 * 3), 9);
}

#[test]
fn redundancy_only_for_the_last_still_frame() {
    assert_eq!(frame_redundancy(true, true, 3), 3);
    assert_eq!(frame_redundancy(true, true, 0), 1);
    assert_eq!(frame_redundancy(true, false, 3), 1);
    assert_eq!(frame_redundancy(false, true, 3), 1);
}

#[test]
fn spreading_plan_of_a_frame() {
    let cfg = SpreadCfg { enabled: true, max_fps: 30, min_spacing_ns: 0, max_sleeps: 0 };
    // 9 packets over 90 ms: one packet per 10 ms.
    assert_eq!(
        plan_spread(&cfg, true, 90 * MS, 64 * 64 * 3),
        Some(Plan { spacing_ns: Some(10 * MS), group_n: 1 })
    );
    assert_eq!(plan_spread(&cfg, false, 90 * MS, 64 * 64 * 3), None);
    let off = SpreadCfg { enabled: false, ..cfg };
    assert_eq!(plan_spread(&off, true, 90 * MS, 64 * 64 * 3), None);
    assert_eq!(plan_spread(&cfg, true, 0, 64 * 64 * 3), None);
}

#[test]
fn pacer_pauses_after_each_group() {
    let mut p = FramePacer::new(Some(Plan { spacing_ns: Some(5 * MS), group_n: 2 }));
    assert_eq!(p.after_packet(1), None);
    assert_eq!(p.after_packet(1), Some((5 * MS) as u128));
    assert_eq!(p.after_packet(1), None);
    assert_eq!(p.after_packet(1), Some((10 * MS) as u128));
    assert_eq!(p.unique, 4);
    assert_eq!(p.physical, 4);
    let mut q = FramePacer::new(None);
    assert_eq!(q.after_packet(3), None);
    assert_eq!(q.after_packet(3), None);
    assert_eq!(q.physical, 6);
    assert_eq!(q.unique, 2);
}

#[test]
fn sender_metrics_log_once_per_interval() {
    let mut m = SenderMetrics::new(500 * MS, 0);
    assert!(!m.record_frame(100 * MS, 9, 9, false));
    assert!(m.record_frame(500 * MS, 9, 27, true));
    assert!(!m.record_frame(600 * MS, 9, 9, false));
    assert_eq!(m.tx_total, 45);
    assert_eq!(m.last_log_ns, 500 * MS);
    assert_eq!(m.frames.rate_parts(), Some((2, 500 * MS)));
}

/// Events per second from the integer figures of a meter.
fn rate_hz(m: &RateMeter) -> f64 {
    if !m.total_fits() {
        return 0.0;
    }
    match m.rate_parts() {
        Some((n, d_ns)) => n as f64 / (d_ns as f64 / 1e9),
        None => 0.0,
    }
}

#[test]
fn empty_rate_is_zero() {
    let m = RateMeter::new(1_000 * MS);
    assert_eq!(rate_hz(&m), 0.0);
}

#[test]
fn rate_approximates_input() {
    let mut m = RateMeter::new(10_000 * MS);
    let t0 = 5_000 * MS;
    for i in 0..10u64 {
        m.tick(t0 + i * 100 * MS);
    }
    // 10 ticks over 900ms -> ~10Hz
    let r = rate_hz(&m);
    assert!(r > 9.0 && r < 11.0, "rate was {r}");
}

#[test]
fn tick_n_matches_repeated_tick_for_rate() {
    let mut batched = RateMeter::new(10_000 * MS);
    let mut unitary = RateMeter::new(10_000 * MS);
    let t0 = 5_000 * MS;
    // 10 frames, 100 packets each, 100ms apart.
    for i in 0..10u64 {
        let t = t0 + i * 100 * MS;
        batched.tick_n(t, 100);
        for _ in 0..100 {
            unitary.tick(t);
        }
    }
    // Both meters see 1000 events across 900ms; rates must match.
    assert!((rate_hz(&batched) - rate_hz(&unitary)).abs() < 1e-6);
}

#[test]
fn total_fits_checks_the_sum() {
    let mut m = RateMeter::new(10_000 * MS);
    m.tick_n(1, u32::MAX);
    m.tick_n(2, u32::MAX);
    assert!(m.total_fits());
}
