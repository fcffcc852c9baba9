use std::time::Duration;
use supermarioemu::profiler::{duration_ns, top_counts, Profiler, CPU_PC_COUNT};

#[test]
fn new_and_clear_are_zero() {
    let mut p = Profiler::new();
    assert_eq!(p.cpu.pc_counts.len(), CPU_PC_COUNT);
    assert_eq!(p.totals.env_steps, 0);
    p.record_batch_step(16);
    p.record_cpu_step(0x8000, 0xa9);
    p.clear();
    assert_eq!(p.totals.batch_steps, 0);
    assert_eq!(p.totals.env_steps, 0);
    assert_eq!(p.cpu.opcode_counts[0xa9], 0);
    assert_eq!(p.cpu.pc_counts[0x8000], 0);
}

#[test]
fn records_count_events() {
    let mut p = Profiler::new();
    p.record_batch_step(16);
    p.record_batch_step(16);
    assert_eq!(p.totals.batch_steps, 2);
    assert_eq!(p.totals.env_steps, 32);
    p.record_cpu_step(0x8000, 0xa9);
    p.record_cpu_step(0x8000, 0xa9);
    p.record_cpu_step(0x8002, 0x4c);
    assert_eq!(p.totals.cpu_steps, 3);
    assert_eq!(p.cpu.opcode_counts[0xa9], 2);
    assert_eq!(p.cpu.pc_counts[0x8002], 1);
    p.record_ppu_tick(341, false);
    p.record_ppu_tick(100, true);
    assert_eq!(p.totals.ppu_tick_calls, 2);
    assert_eq!(p.totals.ppu_tick_cycles, 441);
    assert_eq!(p.totals.ppu_completed_frames, 1);
    p.record_render(Duration::from_nanos(1500));
    p.record_resize(Duration::from_micros(2));
    p.record_stack_shift(Duration::from_nanos(7));
    p.record_frame_step(Duration::from_nanos(9));
    assert_eq!(p.timings.rendering_ns, 1500);
    assert_eq!(p.timings.resize_ns, 2000);
    assert_eq!(p.timings.stack_shift_ns, 7);
    assert_eq!(p.timings.frame_stepping_ns, 9);
    assert_eq!(p.totals.render_calls, 1);
    assert_eq!(p.totals.frame_steps, 1);
    p.record_group_hit(8, 2);
    p.record_group_hit(2, 3);
    p.record_group_miss();
    assert_eq!(p.vec_env.uniform_action_group_hits, 2);
    assert_eq!(p.vec_env.group_leaders, 5);
    assert_eq!(p.vec_env.peer_copies, 6);
    assert_eq!(p.vec_env.uniform_action_group_misses, 1);
    p.record_first_lane_broadcast(15, 1000);
    p.record_grouped_copy(3, 500, Duration::from_nanos(11));
    p.record_info_copy(4, Duration::from_nanos(13));
    p.record_materialization(7, Duration::from_nanos(17));
    assert_eq!(p.vec_env.peer_copies, 21);
    assert_eq!(p.vec_env.copied_observation_bytes, 1500);
    assert_eq!(p.totals.grouped_peer_copies, 3);
    assert_eq!(p.vec_env.copied_info_lanes, 4);
    assert_eq!(p.vec_env.materialized_lanes, 7);
    assert_eq!(p.vec_env.materialization_events, 1);
    assert_eq!(p.totals.grouped_materializations, 1);
    assert_eq!(p.timings.grouped_lane_copy_ns, 11);
    assert_eq!(p.timings.scalar_info_copy_ns, 13);
    assert_eq!(p.timings.materialization_ns, 17);
}

#[test]
fn add_merges_counters() {
    let mut a = Profiler::new();
    let mut b = Profiler::new();
    a.record_cpu_step(1, 2);
    b.record_cpu_step(1, 2);
    b.record_cpu_step(3, 4);
    b.record_batch_step(5);
    a.add(&b);
    assert_eq!(a.totals.cpu_steps, 3);
    assert_eq!(a.cpu.opcode_counts[2], 2);
    assert_eq!(a.cpu.pc_counts[3], 1);
    assert_eq!(a.totals.env_steps, 5);
    let before = a.clone();
    a.add(&Profiler::new());
    assert_eq!(a.totals.cpu_steps, before.totals.cpu_steps);
    assert_eq!(a.cpu.pc_counts, before.cpu.pc_counts);
}

#[test]
fn durations_saturate() {
    assert_eq!(duration_ns(Duration::from_nanos(1234)), 1234);
    assert_eq!(duration_ns(Duration::from_secs(2)), 2_000_000_000);
    assert_eq!(duration_ns(Duration::MAX), u64::MAX);
}

#[test]
fn top_counts_rank_by_count_then_index() {
    let counts = [0u64, 5, 3, 5, 0, 9, 1];
    assert_eq!(top_counts(&counts, 1, 3), vec![(5, 9), (1, 5), (3, 5)]);
    assert_eq!(top_counts(&counts, 1, 10), vec![(5, 9), (1, 5), (3, 5), (2, 3), (6, 1)]);
    assert_eq!(top_counts(&counts, 1, 0), vec![]);
    // Groups of three: [0,5,3]=8, [5,0,9]=14, [1]=1.
    assert_eq!(top_counts(&counts, 3, 5), vec![(1, 14), (0, 8), (2, 1)]);
    assert_eq!(top_counts(&[0, 0], 1, 4), vec![]);
}
