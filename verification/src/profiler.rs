use vstd::prelude::*;

use std::time::Duration;

verus! {

/// The number of distinct opcodes.
pub const CPU_OPCODE_COUNT: usize = 256;

/// The number of distinct program-counter values.
pub const CPU_PC_COUNT: usize = 65_536;

/// Event counts of a profiling run.
#[derive(Clone, Copy, Debug)]
pub struct ProfileTotals {
    pub env_steps: u64,
    pub batch_steps: u64,
    pub frame_steps: u64,
    pub cpu_steps: u64,
    pub ppu_tick_calls: u64,
    pub ppu_tick_cycles: u64,
    pub ppu_completed_frames: u64,
    pub render_calls: u64,
    pub resize_calls: u64,
    pub stack_shifts: u64,
    pub grouped_peer_copies: u64,
    pub grouped_materializations: u64,
}

/// Time spent per phase, in nanoseconds.
#[derive(Clone, Copy, Debug)]
pub struct ProfileTimings {
    pub frame_stepping_ns: u64,
    pub rendering_ns: u64,
    pub resize_ns: u64,
    pub stack_shift_ns: u64,
    pub grouped_lane_copy_ns: u64,
    pub scalar_info_copy_ns: u64,
    pub materialization_ns: u64,
}

/// Counts of the batch environment's lane-sharing work.
#[derive(Clone, Copy, Debug)]
pub struct VecEnvProfile {
    pub group_leaders: u64,
    pub peer_copies: u64,
    pub materialized_lanes: u64,
    pub materialization_events: u64,
    pub uniform_action_group_hits: u64,
    pub uniform_action_group_misses: u64,
    pub copied_observation_bytes: u64,
    pub copied_info_lanes: u64,
    pub first_lane_broadcasts: u64,
}

/// How often each opcode and each program counter was executed.
#[derive(Clone, Debug)]
pub struct CpuProfile {
    pub opcode_counts: [u64; 256],
    pub pc_counts: Vec<u64>,
}

/// Counters and timings of the emulator and the batch environment.
#[derive(Clone, Debug)]
pub struct Profiler {
    pub totals: ProfileTotals,
    pub timings: ProfileTimings,
    pub cpu: CpuProfile,
    pub vec_env: VecEnvProfile,
}

impl ProfileTotals {
    /// All counters zero.
    pub open spec fn is_zero(&self) -> bool {
        self.env_steps == 0
        && self.batch_steps == 0
        && self.frame_steps == 0
        && self.cpu_steps == 0
        && self.ppu_tick_calls == 0
        && self.ppu_tick_cycles == 0
        && self.ppu_completed_frames == 0
        && self.render_calls == 0
        && self.resize_calls == 0
        && self.stack_shifts == 0
        && self.grouped_peer_copies == 0
        && self.grouped_materializations == 0
    }

    /// Every counter the wrapping sum of `a`'s and `b`'s.
    pub open spec fn is_sum(&self, a: ProfileTotals, b: ProfileTotals) -> bool {
        self.env_steps == a.env_steps.wrapping_add(b.env_steps)
        && self.batch_steps == a.batch_steps.wrapping_add(b.batch_steps)
        && self.frame_steps == a.frame_steps.wrapping_add(b.frame_steps)
        && self.cpu_steps == a.cpu_steps.wrapping_add(b.cpu_steps)
        && self.ppu_tick_calls == a.ppu_tick_calls.wrapping_add(b.ppu_tick_calls)
        && self.ppu_tick_cycles == a.ppu_tick_cycles.wrapping_add(b.ppu_tick_cycles)
        && self.ppu_completed_frames == a.ppu_completed_frames.wrapping_add(b.ppu_completed_frames)
        && self.render_calls == a.render_calls.wrapping_add(b.render_calls)
        && self.resize_calls == a.resize_calls.wrapping_add(b.resize_calls)
        && self.stack_shifts == a.stack_shifts.wrapping_add(b.stack_shifts)
        && self.grouped_peer_copies == a.grouped_peer_copies.wrapping_add(b.grouped_peer_copies)
        && self.grouped_materializations == a.grouped_materializations.wrapping_add(b.grouped_materializations)
    }

    /// All counters zero.
    pub fn zeroed() -> (z: Self)
        ensures
            z.is_zero(),
    {
        ProfileTotals {
            env_steps: 0,
            batch_steps: 0,
            frame_steps: 0,
            cpu_steps: 0,
            ppu_tick_calls: 0,
            ppu_tick_cycles: 0,
            ppu_completed_frames: 0,
            render_calls: 0,
            resize_calls: 0,
            stack_shifts: 0,
            grouped_peer_copies: 0,
            grouped_materializations: 0,
        }
    }

    /// Adds `other`'s counters to these, wrapping.
    pub fn add(&mut self, other: &Self)
        ensures
            final(self).is_sum(*old(self), *other),
    {
        self.env_steps = self.env_steps.wrapping_add(other.env_steps);
        self.batch_steps = self.batch_steps.wrapping_add(other.batch_steps);
        self.frame_steps = self.frame_steps.wrapping_add(other.frame_steps);
        self.cpu_steps = self.cpu_steps.wrapping_add(other.cpu_steps);
        self.ppu_tick_calls = self.ppu_tick_calls.wrapping_add(other.ppu_tick_calls);
        self.ppu_tick_cycles = self.ppu_tick_cycles.wrapping_add(other.ppu_tick_cycles);
        self.ppu_completed_frames = self.ppu_completed_frames.wrapping_add(other.ppu_completed_frames);
        self.render_calls = self.render_calls.wrapping_add(other.render_calls);
        self.resize_calls = self.resize_calls.wrapping_add(other.resize_calls);
        self.stack_shifts = self.stack_shifts.wrapping_add(other.stack_shifts);
        self.grouped_peer_copies = self.grouped_peer_copies.wrapping_add(other.grouped_peer_copies);
        self.grouped_materializations = self.grouped_materializations.wrapping_add(other.grouped_materializations);
    }
}

impl ProfileTimings {
    /// All counters zero.
    pub open spec fn is_zero(&self) -> bool {
        self.frame_stepping_ns == 0
        && self.rendering_ns == 0
        && self.resize_ns == 0
        && self.stack_shift_ns == 0
        && self.grouped_lane_copy_ns == 0
        && self.scalar_info_copy_ns == 0
        && self.materialization_ns == 0
    }

    /// Every counter the wrapping sum of `a`'s and `b`'s.
    pub open spec fn is_sum(&self, a: ProfileTimings, b: ProfileTimings) -> bool {
        self.frame_stepping_ns == a.frame_stepping_ns.wrapping_add(b.frame_stepping_ns)
        && self.rendering_ns == a.rendering_ns.wrapping_add(b.rendering_ns)
        && self.resize_ns == a.resize_ns.wrapping_add(b.resize_ns)
        && self.stack_shift_ns == a.stack_shift_ns.wrapping_add(b.stack_shift_ns)
        && self.grouped_lane_copy_ns == a.grouped_lane_copy_ns.wrapping_add(b.grouped_lane_copy_ns)
        && self.scalar_info_copy_ns == a.scalar_info_copy_ns.wrapping_add(b.scalar_info_copy_ns)
        && self.materialization_ns == a.materialization_ns.wrapping_add(b.materialization_ns)
    }

    /// All counters zero.
    pub fn zeroed() -> (z: Self)
        ensures
            z.is_zero(),
    {
        ProfileTimings {
            frame_stepping_ns: 0,
            rendering_ns: 0,
            resize_ns: 0,
            stack_shift_ns: 0,
            grouped_lane_copy_ns: 0,
            scalar_info_copy_ns: 0,
            materialization_ns: 0,
        }
    }

    /// Adds `other`'s counters to these, wrapping.
    pub fn add(&mut self, other: &Self)
        ensures
            final(self).is_sum(*old(self), *other),
    {
        self.frame_stepping_ns = self.frame_stepping_ns.wrapping_add(other.frame_stepping_ns);
        self.rendering_ns = self.rendering_ns.wrapping_add(other.rendering_ns);
        self.resize_ns = self.resize_ns.wrapping_add(other.resize_ns);
        self.stack_shift_ns = self.stack_shift_ns.wrapping_add(other.stack_shift_ns);
        self.grouped_lane_copy_ns = self.grouped_lane_copy_ns.wrapping_add(other.grouped_lane_copy_ns);
        self.scalar_info_copy_ns = self.scalar_info_copy_ns.wrapping_add(other.scalar_info_copy_ns);
        self.materialization_ns = self.materialization_ns.wrapping_add(other.materialization_ns);
    }
}

impl VecEnvProfile {
    /// All counters zero.
    pub open spec fn is_zero(&self) -> bool {
        self.group_leaders == 0
        && self.peer_copies == 0
        && self.materialized_lanes == 0
        && self.materialization_events == 0
        && self.uniform_action_group_hits == 0
        && self.uniform_action_group_misses == 0
        && self.copied_observation_bytes == 0
        && self.copied_info_lanes == 0
        && self.first_lane_broadcasts == 0
    }

    /// Every counter the wrapping sum of `a`'s and `b`'s.
    pub open spec fn is_sum(&self, a: VecEnvProfile, b: VecEnvProfile) -> bool {
        self.group_leaders == a.group_leaders.wrapping_add(b.group_leaders)
        && self.peer_copies == a.peer_copies.wrapping_add(b.peer_copies)
        && self.materialized_lanes == a.materialized_lanes.wrapping_add(b.materialized_lanes)
        && self.materialization_events == a.materialization_events.wrapping_add(b.materialization_events)
        && self.uniform_action_group_hits == a.uniform_action_group_hits.wrapping_add(b.uniform_action_group_hits)
        && self.uniform_action_group_misses == a.uniform_action_group_misses.wrapping_add(b.uniform_action_group_misses)
        && self.copied_observation_bytes == a.copied_observation_bytes.wrapping_add(b.copied_observation_bytes)
        && self.copied_info_lanes == a.copied_info_lanes.wrapping_add(b.copied_info_lanes)
        && self.first_lane_broadcasts == a.first_lane_broadcasts.wrapping_add(b.first_lane_broadcasts)
    }

    /// All counters zero.
    pub fn zeroed() -> (z: Self)
        ensures
            z.is_zero(),
    {
        VecEnvProfile {
            group_leaders: 0,
            peer_copies: 0,
            materialized_lanes: 0,
            materialization_events: 0,
            uniform_action_group_hits: 0,
            uniform_action_group_misses: 0,
            copied_observation_bytes: 0,
            copied_info_lanes: 0,
            first_lane_broadcasts: 0,
        }
    }

    /// Adds `other`'s counters to these, wrapping.
    pub fn add(&mut self, other: &Self)
        ensures
            final(self).is_sum(*old(self), *other),
    {
        self.group_leaders = self.group_leaders.wrapping_add(other.group_leaders);
        self.peer_copies = self.peer_copies.wrapping_add(other.peer_copies);
        self.materialized_lanes = self.materialized_lanes.wrapping_add(other.materialized_lanes);
        self.materialization_events = self.materialization_events.wrapping_add(other.materialization_events);
        self.uniform_action_group_hits = self.uniform_action_group_hits.wrapping_add(other.uniform_action_group_hits);
        self.uniform_action_group_misses = self.uniform_action_group_misses.wrapping_add(other.uniform_action_group_misses);
        self.copied_observation_bytes = self.copied_observation_bytes.wrapping_add(other.copied_observation_bytes);
        self.copied_info_lanes = self.copied_info_lanes.wrapping_add(other.copied_info_lanes);
        self.first_lane_broadcasts = self.first_lane_broadcasts.wrapping_add(other.first_lane_broadcasts);
    }
}

/// The whole nanoseconds in a `Duration`, as `Duration::as_nanos` gives
/// them: a function of the duration's value alone.
pub uninterp spec fn duration_nanos(d: Duration) -> u128;

/// `Duration::as_nanos`: the whole nanoseconds in `d`. The contract names
/// the result `duration_nanos(d)`; a `Duration` is opaque here, so nothing
/// more is stated of the value.
#[verifier::external_body]
fn duration_as_nanos(d: &Duration) -> (nanos: u128)
    ensures
        nanos == duration_nanos(*d),
{
    d.as_nanos()
}

/// The whole nanoseconds in `d`, saturating at `u64::MAX`.
pub open spec fn duration_ns_spec(d: Duration) -> u64 {
    if duration_nanos(d) > u64::MAX as u128 {
        u64::MAX
    } else {
        duration_nanos(d) as u64
    }
}

/// The whole nanoseconds in `d`, saturating at `u64::MAX`.
pub fn duration_ns(d: Duration) -> (ns: u64)
    ensures
        ns == duration_ns_spec(d),
{
    let nanos = duration_as_nanos(&d);
    if nanos > u64::MAX as u128 {
        u64::MAX
    } else {
        nanos as u64
    }
}


/// Wrapping addition of `u64` counters is associative and commutative, with
/// 0 as identity.
proof fn lemma_wrapping_add_laws(x: u64, y: u64, z: u64)
    ensures
        x.wrapping_add(y).wrapping_add(z) == x.wrapping_add(y.wrapping_add(z)),
        x.wrapping_add(y) == y.wrapping_add(x),
        y == 0 ==> x.wrapping_add(y) == x,
{
}

/// Merging totals is order-free: summing three of them grouped either way,
/// or two in either order, gives the same counters, and adding an all-zero
/// one changes nothing. So events recorded into a shard and merged count as
/// if they had been recorded directly.
pub proof fn lemma_totals_merge(
    a: ProfileTotals,
    b: ProfileTotals,
    c: ProfileTotals,
    ab: ProfileTotals,
    bc: ProfileTotals,
    ab_c: ProfileTotals,
    a_bc: ProfileTotals,
    ba: ProfileTotals,
)
    requires
        ab.is_sum(a, b),
        bc.is_sum(b, c),
        ab_c.is_sum(ab, c),
        a_bc.is_sum(a, bc),
        ba.is_sum(b, a),
    ensures
        ab_c == a_bc,
        ab == ba,
        b.is_zero() ==> ab == a,
{
    lemma_wrapping_add_laws(a.env_steps, b.env_steps, c.env_steps);
    lemma_wrapping_add_laws(a.batch_steps, b.batch_steps, c.batch_steps);
    lemma_wrapping_add_laws(a.frame_steps, b.frame_steps, c.frame_steps);
    lemma_wrapping_add_laws(a.cpu_steps, b.cpu_steps, c.cpu_steps);
    lemma_wrapping_add_laws(a.ppu_tick_calls, b.ppu_tick_calls, c.ppu_tick_calls);
    lemma_wrapping_add_laws(a.ppu_tick_cycles, b.ppu_tick_cycles, c.ppu_tick_cycles);
    lemma_wrapping_add_laws(a.ppu_completed_frames, b.ppu_completed_frames, c.ppu_completed_frames);
    lemma_wrapping_add_laws(a.render_calls, b.render_calls, c.render_calls);
    lemma_wrapping_add_laws(a.resize_calls, b.resize_calls, c.resize_calls);
    lemma_wrapping_add_laws(a.stack_shifts, b.stack_shifts, c.stack_shifts);
    lemma_wrapping_add_laws(a.grouped_peer_copies, b.grouped_peer_copies, c.grouped_peer_copies);
    lemma_wrapping_add_laws(a.grouped_materializations, b.grouped_materializations, c.grouped_materializations);
}

/// Merging timings is order-free: summing three of them grouped either way,
/// or two in either order, gives the same counters, and adding an all-zero
/// one changes nothing. So events recorded into a shard and merged count as
/// if they had been recorded directly.
pub proof fn lemma_timings_merge(
    a: ProfileTimings,
    b: ProfileTimings,
    c: ProfileTimings,
    ab: ProfileTimings,
    bc: ProfileTimings,
    ab_c: ProfileTimings,
    a_bc: ProfileTimings,
    ba: ProfileTimings,
)
    requires
        ab.is_sum(a, b),
        bc.is_sum(b, c),
        ab_c.is_sum(ab, c),
        a_bc.is_sum(a, bc),
        ba.is_sum(b, a),
    ensures
        ab_c == a_bc,
        ab == ba,
        b.is_zero() ==> ab == a,
{
    lemma_wrapping_add_laws(a.frame_stepping_ns, b.frame_stepping_ns, c.frame_stepping_ns);
    lemma_wrapping_add_laws(a.rendering_ns, b.rendering_ns, c.rendering_ns);
    lemma_wrapping_add_laws(a.resize_ns, b.resize_ns, c.resize_ns);
    lemma_wrapping_add_laws(a.stack_shift_ns, b.stack_shift_ns, c.stack_shift_ns);
    lemma_wrapping_add_laws(a.grouped_lane_copy_ns, b.grouped_lane_copy_ns, c.grouped_lane_copy_ns);
    lemma_wrapping_add_laws(a.scalar_info_copy_ns, b.scalar_info_copy_ns, c.scalar_info_copy_ns);
    lemma_wrapping_add_laws(a.materialization_ns, b.materialization_ns, c.materialization_ns);
}

/// Merging batch counters is order-free: summing three of them grouped either way,
/// or two in either order, gives the same counters, and adding an all-zero
/// one changes nothing. So events recorded into a shard and merged count as
/// if they had been recorded directly.
pub proof fn lemma_batch_counters_merge(
    a: VecEnvProfile,
    b: VecEnvProfile,
    c: VecEnvProfile,
    ab: VecEnvProfile,
    bc: VecEnvProfile,
    ab_c: VecEnvProfile,
    a_bc: VecEnvProfile,
    ba: VecEnvProfile,
)
    requires
        ab.is_sum(a, b),
        bc.is_sum(b, c),
        ab_c.is_sum(ab, c),
        a_bc.is_sum(a, bc),
        ba.is_sum(b, a),
    ensures
        ab_c == a_bc,
        ab == ba,
        b.is_zero() ==> ab == a,
{
    lemma_wrapping_add_laws(a.group_leaders, b.group_leaders, c.group_leaders);
    lemma_wrapping_add_laws(a.peer_copies, b.peer_copies, c.peer_copies);
    lemma_wrapping_add_laws(a.materialized_lanes, b.materialized_lanes, c.materialized_lanes);
    lemma_wrapping_add_laws(a.materialization_events, b.materialization_events, c.materialization_events);
    lemma_wrapping_add_laws(a.uniform_action_group_hits, b.uniform_action_group_hits, c.uniform_action_group_hits);
    lemma_wrapping_add_laws(a.uniform_action_group_misses, b.uniform_action_group_misses, c.uniform_action_group_misses);
    lemma_wrapping_add_laws(a.copied_observation_bytes, b.copied_observation_bytes, c.copied_observation_bytes);
    lemma_wrapping_add_laws(a.copied_info_lanes, b.copied_info_lanes, c.copied_info_lanes);
    lemma_wrapping_add_laws(a.first_lane_broadcasts, b.first_lane_broadcasts, c.first_lane_broadcasts);
}

impl Profiler {
    /// One counter per program counter value.
    pub open spec fn wf(&self) -> bool {
        self.cpu.pc_counts@.len() == CPU_PC_COUNT
    }

    /// Every counter and timing is zero.
    pub open spec fn is_zero(&self) -> bool {
        &&& self.wf()
        &&& self.totals.is_zero()
        &&& self.timings.is_zero()
        &&& self.vec_env.is_zero()
        &&& forall|i: int| 0 <= i < 256 ==> #[trigger] self.cpu.opcode_counts[i] == 0
        &&& forall|i: int| 0 <= i < CPU_PC_COUNT ==> #[trigger] self.cpu.pc_counts@[i] == 0
    }

    /// A profiler with every counter zero.
    pub fn new() -> (p: Self)
        ensures
            p.is_zero(),
    {
        let mut pc_counts: Vec<u64> = Vec::new();
        for i in 0..CPU_PC_COUNT
            invariant
                pc_counts@.len() == i,
                forall|j: int| 0 <= j < i ==> #[trigger] pc_counts@[j] == 0,
        {
            pc_counts.push(0);
        }
        Profiler {
            totals: ProfileTotals::zeroed(),
            timings: ProfileTimings::zeroed(),
            cpu: CpuProfile { opcode_counts: [0u64; 256], pc_counts },
            vec_env: VecEnvProfile::zeroed(),
        }
    }

    /// Zeroes every counter and timing.
    pub fn clear(&mut self)
        ensures
            final(self).is_zero(),
    {
        *self = Self::new();
    }

    /// Adds every counter and timing of `other` to this profiler's,
    /// wrapping.
    pub fn add(&mut self, other: &Self)
        requires
            old(self).wf(),
            other.wf(),
        ensures
            final(self).wf(),
            final(self).totals.is_sum(old(self).totals, other.totals),
            final(self).timings.is_sum(old(self).timings, other.timings),
            final(self).vec_env.is_sum(old(self).vec_env, other.vec_env),
            forall|i: int|
                0 <= i < 256 ==> #[trigger] final(self).cpu.opcode_counts[i] == old(self).cpu.opcode_counts[i].wrapping_add(
                    other.cpu.opcode_counts[i],
                ),
            forall|i: int|
                0 <= i < CPU_PC_COUNT ==> #[trigger] final(self).cpu.pc_counts@[i] == old(self).cpu.pc_counts@[i].wrapping_add(
                    other.cpu.pc_counts@[i],
                ),
    {
        self.totals.add(&other.totals);
        self.timings.add(&other.timings);
        self.vec_env.add(&other.vec_env);
        let ghost old_ops = self.cpu.opcode_counts;
        let ghost sums = (self.totals, self.timings, self.vec_env);
        for i in 0..CPU_OPCODE_COUNT
            invariant
                sums == (self.totals, self.timings, self.vec_env),
                self.cpu.pc_counts@ == old(self).cpu.pc_counts@,
                forall|j: int|
                    0 <= j < i ==> #[trigger] self.cpu.opcode_counts[j] == old_ops[j].wrapping_add(
                        other.cpu.opcode_counts[j],
                    ),
                forall|j: int| i <= j < 256 ==> #[trigger] self.cpu.opcode_counts[j] == old_ops[j],
        {
            self.cpu.opcode_counts[i] = self.cpu.opcode_counts[i].wrapping_add(other.cpu.opcode_counts[i]);
        }
        let ghost old_pcs = self.cpu.pc_counts@;
        for i in 0..CPU_PC_COUNT
            invariant
                other.wf(),
                sums == (self.totals, self.timings, self.vec_env),
                forall|j: int|
                    0 <= j < 256 ==> #[trigger] self.cpu.opcode_counts[j] == old_ops[j].wrapping_add(
                        other.cpu.opcode_counts[j],
                    ),
                self.cpu.pc_counts@.len() == CPU_PC_COUNT,
                old_pcs.len() == CPU_PC_COUNT,
                forall|j: int|
                    0 <= j < i ==> #[trigger] self.cpu.pc_counts@[j] == old_pcs[j].wrapping_add(
                        other.cpu.pc_counts@[j],
                    ),
                forall|j: int| i <= j < CPU_PC_COUNT ==> #[trigger] self.cpu.pc_counts@[j] == old_pcs[j],
        {
            let sum = self.cpu.pc_counts[i].wrapping_add(other.cpu.pc_counts[i]);
            self.cpu.pc_counts.set(i, sum);
        }
    }

    /// Counts one batch step of `num_envs` environments.
    pub fn record_batch_step(&mut self, num_envs: usize)
        ensures
            final(self).totals == (ProfileTotals {
                batch_steps: old(self).totals.batch_steps.wrapping_add(1),
                env_steps: old(self).totals.env_steps.wrapping_add(num_envs as u64),
                ..old(self).totals
            }),
            final(self).timings == old(self).timings,
            final(self).cpu == old(self).cpu,
            final(self).vec_env == old(self).vec_env,
    {
        self.totals.batch_steps = self.totals.batch_steps.wrapping_add(1);
        self.totals.env_steps = self.totals.env_steps.wrapping_add(num_envs as u64);
    }

    /// Counts one executed instruction: its opcode and program counter.
    pub fn record_cpu_step(&mut self, pc: u16, opcode: u8)
        requires
            old(self).wf(),
        ensures
            final(self).wf(),
            final(self).totals == (ProfileTotals {
                cpu_steps: old(self).totals.cpu_steps.wrapping_add(1),
                ..old(self).totals
            }),
            final(self).cpu.opcode_counts@ == old(self).cpu.opcode_counts@.update(
                opcode as int,
                old(self).cpu.opcode_counts[opcode as int].wrapping_add(1),
            ),
            final(self).cpu.pc_counts@ == old(self).cpu.pc_counts@.update(
                pc as int,
                old(self).cpu.pc_counts@[pc as int].wrapping_add(1),
            ),
            final(self).timings == old(self).timings,
            final(self).vec_env == old(self).vec_env,
    {
        self.totals.cpu_steps = self.totals.cpu_steps.wrapping_add(1);
        let o = opcode as usize;
        self.cpu.opcode_counts[o] = self.cpu.opcode_counts[o].wrapping_add(1);
        let p = pc as usize;
        let count = self.cpu.pc_counts[p].wrapping_add(1);
        self.cpu.pc_counts.set(p, count);
    }

    /// Counts one stepped frame and adds its duration to the frame-stepping
    /// time.
    pub fn record_frame_step(&mut self, elapsed: Duration)
        ensures
            final(self).totals == (ProfileTotals {
                frame_steps: old(self).totals.frame_steps.wrapping_add(1),
                ..old(self).totals
            }),
            final(self).timings == (ProfileTimings {
                frame_stepping_ns: old(self).timings.frame_stepping_ns.wrapping_add(duration_ns_spec(elapsed)),
                ..old(self).timings
            }),
            final(self).cpu == old(self).cpu,
            final(self).vec_env == old(self).vec_env,
    {
        self.totals.frame_steps = self.totals.frame_steps.wrapping_add(1);
        self.timings.frame_stepping_ns = self.timings.frame_stepping_ns.wrapping_add(duration_ns(elapsed));
    }

    /// Counts one PPU tick call of `cycles` cycles, and whether it
    /// completed a frame.
    pub fn record_ppu_tick(&mut self, cycles: usize, completed_frame: bool)
        ensures
            final(self).totals == (ProfileTotals {
                ppu_tick_calls: old(self).totals.ppu_tick_calls.wrapping_add(1),
                ppu_tick_cycles: old(self).totals.ppu_tick_cycles.wrapping_add(cycles as u64),
                ppu_completed_frames: if completed_frame {
                    old(self).totals.ppu_completed_frames.wrapping_add(1)
                } else {
                    old(self).totals.ppu_completed_frames
                },
                ..old(self).totals
            }),
            final(self).timings == old(self).timings,
            final(self).cpu == old(self).cpu,
            final(self).vec_env == old(self).vec_env,
    {
        self.totals.ppu_tick_calls = self.totals.ppu_tick_calls.wrapping_add(1);
        self.totals.ppu_tick_cycles = self.totals.ppu_tick_cycles.wrapping_add(cycles as u64);
        if completed_frame {
            self.totals.ppu_completed_frames = self.totals.ppu_completed_frames.wrapping_add(1);
        }
    }

    /// Counts one render and adds its duration to the rendering time.
    pub fn record_render(&mut self, elapsed: Duration)
        ensures
            final(self).totals == (ProfileTotals {
                render_calls: old(self).totals.render_calls.wrapping_add(1),
                ..old(self).totals
            }),
            final(self).timings == (ProfileTimings { rendering_ns: old(self).timings.rendering_ns.wrapping_add(duration_ns_spec(elapsed)), ..old(self).timings }),
            final(self).cpu == old(self).cpu,
            final(self).vec_env == old(self).vec_env,
    {
        self.totals.render_calls = self.totals.render_calls.wrapping_add(1);
        self.timings.rendering_ns = self.timings.rendering_ns.wrapping_add(duration_ns(elapsed));
    }

    /// Counts one resize and adds its duration to the resize time.
    pub fn record_resize(&mut self, elapsed: Duration)
        ensures
            final(self).totals == (ProfileTotals {
                resize_calls: old(self).totals.resize_calls.wrapping_add(1),
                ..old(self).totals
            }),
            final(self).timings == (ProfileTimings { resize_ns: old(self).timings.resize_ns.wrapping_add(duration_ns_spec(elapsed)), ..old(self).timings }),
            final(self).cpu == old(self).cpu,
            final(self).vec_env == old(self).vec_env,
    {
        self.totals.resize_calls = self.totals.resize_calls.wrapping_add(1);
        self.timings.resize_ns = self.timings.resize_ns.wrapping_add(duration_ns(elapsed));
    }

    /// Counts one frame-stack shift and adds its duration to the shift time.
    pub fn record_stack_shift(&mut self, elapsed: Duration)
        ensures
            final(self).totals == (ProfileTotals {
                stack_shifts: old(self).totals.stack_shifts.wrapping_add(1),
                ..old(self).totals
            }),
            final(self).timings == (ProfileTimings {
                stack_shift_ns: old(self).timings.stack_shift_ns.wrapping_add(duration_ns_spec(elapsed)),
                ..old(self).timings
            }),
            final(self).cpu == old(self).cpu,
            final(self).vec_env == old(self).vec_env,
    {
        self.totals.stack_shifts = self.totals.stack_shifts.wrapping_add(1);
        self.timings.stack_shift_ns = self.timings.stack_shift_ns.wrapping_add(duration_ns(elapsed));
    }

    /// Counts a step in which every lane group acted uniformly: its leaders,
    /// and the lanes beyond them that were copied.
    pub fn record_group_hit(&mut self, group_count: usize, leader_count: usize)
        ensures
            final(self).vec_env == (VecEnvProfile {
                uniform_action_group_hits: old(self).vec_env.uniform_action_group_hits.wrapping_add(1),
                group_leaders: old(self).vec_env.group_leaders.wrapping_add(leader_count as u64),
                peer_copies: if group_count > leader_count {
                    old(self).vec_env.peer_copies.wrapping_add((group_count - leader_count) as u64)
                } else {
                    old(self).vec_env.peer_copies
                },
                ..old(self).vec_env
            }),
            final(self).totals == old(self).totals,
            final(self).timings == old(self).timings,
            final(self).cpu == old(self).cpu,
    {
        self.vec_env.uniform_action_group_hits = self.vec_env.uniform_action_group_hits.wrapping_add(1);
        self.vec_env.group_leaders = self.vec_env.group_leaders.wrapping_add(leader_count as u64);
        if group_count > leader_count {
            self.vec_env.peer_copies = self.vec_env.peer_copies.wrapping_add((group_count - leader_count) as u64);
        }
    }

    /// Counts a step in which the lane groups did not act uniformly.
    pub fn record_group_miss(&mut self)
        ensures
            final(self).vec_env == (VecEnvProfile {
                uniform_action_group_misses: old(self).vec_env.uniform_action_group_misses.wrapping_add(1),
                ..old(self).vec_env
            }),
            final(self).totals == old(self).totals,
            final(self).timings == old(self).timings,
            final(self).cpu == old(self).cpu,
    {
        self.vec_env.uniform_action_group_misses = self.vec_env.uniform_action_group_misses.wrapping_add(1);
    }

    /// Counts a step whose first lane was copied to `peer_count` others,
    /// `obs_bytes` observation bytes in all.
    pub fn record_first_lane_broadcast(&mut self, peer_count: usize, obs_bytes: usize)
        ensures
            final(self).vec_env == (VecEnvProfile {
                first_lane_broadcasts: old(self).vec_env.first_lane_broadcasts.wrapping_add(1),
                peer_copies: old(self).vec_env.peer_copies.wrapping_add(peer_count as u64),
                copied_observation_bytes: old(self).vec_env.copied_observation_bytes.wrapping_add(obs_bytes as u64),
                ..old(self).vec_env
            }),
            final(self).totals == old(self).totals,
            final(self).timings == old(self).timings,
            final(self).cpu == old(self).cpu,
    {
        self.vec_env.first_lane_broadcasts = self.vec_env.first_lane_broadcasts.wrapping_add(1);
        self.vec_env.peer_copies = self.vec_env.peer_copies.wrapping_add(peer_count as u64);
        self.vec_env.copied_observation_bytes = self.vec_env.copied_observation_bytes.wrapping_add(
            obs_bytes as u64,
        );
    }

    /// Counts `peer_count` lanes copied from their group leaders,
    /// `obs_bytes` observation bytes in all, and adds the copy time.
    pub fn record_grouped_copy(&mut self, peer_count: usize, obs_bytes: usize, elapsed: Duration)
        ensures
            final(self).totals == (ProfileTotals {
                grouped_peer_copies: old(self).totals.grouped_peer_copies.wrapping_add(peer_count as u64),
                ..old(self).totals
            }),
            final(self).vec_env == (VecEnvProfile {
                copied_observation_bytes: old(self).vec_env.copied_observation_bytes.wrapping_add(obs_bytes as u64),
                ..old(self).vec_env
            }),
            final(self).timings == (ProfileTimings {
                grouped_lane_copy_ns: old(self).timings.grouped_lane_copy_ns.wrapping_add(duration_ns_spec(elapsed)),
                ..old(self).timings
            }),
            final(self).cpu == old(self).cpu,
    {
        self.totals.grouped_peer_copies = self.totals.grouped_peer_copies.wrapping_add(peer_count as u64);
        self.vec_env.copied_observation_bytes = self.vec_env.copied_observation_bytes.wrapping_add(
            obs_bytes as u64,
        );
        self.timings.grouped_lane_copy_ns = self.timings.grouped_lane_copy_ns.wrapping_add(duration_ns(elapsed));
    }

    /// Counts `lanes` info lanes copied and adds the copy time.
    pub fn record_info_copy(&mut self, lanes: usize, elapsed: Duration)
        ensures
            final(self).vec_env == (VecEnvProfile {
                copied_info_lanes: old(self).vec_env.copied_info_lanes.wrapping_add(lanes as u64),
                ..old(self).vec_env
            }),
            final(self).timings == (ProfileTimings {
                scalar_info_copy_ns: old(self).timings.scalar_info_copy_ns.wrapping_add(duration_ns_spec(elapsed)),
                ..old(self).timings
            }),
            final(self).totals == old(self).totals,
            final(self).cpu == old(self).cpu,
    {
        self.vec_env.copied_info_lanes = self.vec_env.copied_info_lanes.wrapping_add(lanes as u64);
        self.timings.scalar_info_copy_ns = self.timings.scalar_info_copy_ns.wrapping_add(duration_ns(elapsed));
    }

    /// Counts one materialization of `lanes` shared lanes and adds its time.
    pub fn record_materialization(&mut self, lanes: usize, elapsed: Duration)
        ensures
            final(self).totals == (ProfileTotals {
                grouped_materializations: old(self).totals.grouped_materializations.wrapping_add(1),
                ..old(self).totals
            }),
            final(self).vec_env == (VecEnvProfile {
                materialization_events: old(self).vec_env.materialization_events.wrapping_add(1),
                materialized_lanes: old(self).vec_env.materialized_lanes.wrapping_add(lanes as u64),
                ..old(self).vec_env
            }),
            final(self).timings == (ProfileTimings {
                materialization_ns: old(self).timings.materialization_ns.wrapping_add(duration_ns_spec(elapsed)),
                ..old(self).timings
            }),
            final(self).cpu == old(self).cpu,
    {
        self.totals.grouped_materializations = self.totals.grouped_materializations.wrapping_add(1);
        self.vec_env.materialization_events = self.vec_env.materialization_events.wrapping_add(1);
        self.vec_env.materialized_lanes = self.vec_env.materialized_lanes.wrapping_add(lanes as u64);
        self.timings.materialization_ns = self.timings.materialization_ns.wrapping_add(duration_ns(elapsed));
    }
}


/// The wrapping sum of the `n` counts from `start` on.
pub open spec fn count_sum(counts: Seq<u64>, start: int, n: int) -> u64
    decreases n,
{
    if n <= 0 {
        0
    } else {
        count_sum(counts, start, n - 1).wrapping_add(counts[start + n - 1])
    }
}

/// The number of groups of `size` consecutive counts (the last one may be
/// shorter).
pub open spec fn group_total(len: int, size: int) -> int {
    (len + size - 1) / size
}

/// The count of group `g`: the wrapping sum of its counts.
pub open spec fn group_count(counts: Seq<u64>, size: int, g: int) -> u64 {
    let start = g * size;
    let end = if (g + 1) * size < counts.len() {
        (g + 1) * size
    } else {
        counts.len() as int
    };
    count_sum(counts, start, end - start)
}

/// Entry `a` comes before entry `b` in a top list: a higher count, or the
/// same count and a lower group.
pub open spec fn ranks_before(a: (usize, u64), b: (usize, u64)) -> bool {
    a.1 > b.1 || (a.1 == b.1 && a.0 < b.0)
}

/// `entries` lists the groups with a non-zero count, best first, cut to
/// `top_n`: each entry is a group and its count, the list is in ranking
/// order, and a non-zero group left out ranks after every entry of a full
/// list.
pub open spec fn is_top_list(entries: Seq<(usize, u64)>, counts: Seq<u64>, size: int, top_n: int) -> bool {
    &&& entries.len() <= top_n
    &&& forall|i: int|
        0 <= i < entries.len() ==> {
            let e = #[trigger] entries[i];
            &&& e.0 < group_total(counts.len() as int, size)
            &&& e.1 == group_count(counts, size, e.0 as int)
            &&& e.1 > 0
        }
    &&& forall|i: int, j: int| 0 <= i < j < entries.len() ==> ranks_before(#[trigger] entries[i], #[trigger] entries[j])
    &&& forall|g: int|
        0 <= g < group_total(counts.len() as int, size) && group_count(counts, size, g) > 0 && !(exists|i: int|
            0 <= i < entries.len() && #[trigger] entries[i].0 == g) ==> {
            &&& entries.len() == top_n
            &&& forall|i: int| 0 <= i < entries.len() ==> ranks_before(#[trigger] entries[i], (g as usize, group_count(counts, size, g)))
        }
}

/// The groups of `size` consecutive counts that have a non-zero count, in
/// group order, with their counts.
fn nonzero_groups(counts: &[u64], size: usize) -> (groups: Vec<(usize, u64)>)
    requires
        size > 0,
    ensures
        forall|k: int|
            0 <= k < groups@.len() ==> {
                let e = #[trigger] groups@[k];
                &&& e.0 < group_total(counts@.len() as int, size as int)
                &&& e.1 == group_count(counts@, size as int, e.0 as int)
                &&& e.1 > 0
            },
        forall|k: int, l: int| 0 <= k < l < groups@.len() ==> #[trigger] groups@[k].0 < #[trigger] groups@[l].0,
        forall|g: int|
            0 <= g < group_total(counts@.len() as int, size as int) && group_count(counts@, size as int, g) > 0
                ==> exists|k: int| 0 <= k < groups@.len() && #[trigger] groups@[k].0 == g,
{
    let len = counts.len();
    let mut groups: Vec<(usize, u64)> = Vec::new();
    let mut start: usize = 0;
    let mut g: usize = 0;
    assert(len > 0 ==> group_total(len as int, size as int) >= 1) by (nonlinear_arith)
        requires
            size > 0,
    ;
    assert(len == 0 ==> group_total(len as int, size as int) == 0) by (nonlinear_arith)
        requires
            size > 0,
    ;
    while start < len
        invariant
            size > 0,
            len == counts@.len(),
            start == (if g * size < len {
                g * size
            } else {
                len as int
            }),
            g <= start,
            g <= group_total(len as int, size as int),
            start < len ==> g < group_total(len as int, size as int),
            start >= len ==> g == group_total(len as int, size as int),
            forall|k: int|
                0 <= k < groups@.len() ==> {
                    let e = #[trigger] groups@[k];
                    &&& e.0 < g
                    &&& e.1 == group_count(counts@, size as int, e.0 as int)
                    &&& e.1 > 0
                },
            forall|k: int, l: int| 0 <= k < l < groups@.len() ==> #[trigger] groups@[k].0 < #[trigger] groups@[l].0,
            forall|h: int|
                0 <= h < g && group_count(counts@, size as int, h) > 0 ==> exists|k: int|
                    0 <= k < groups@.len() && #[trigger] groups@[k].0 == h,
        decreases len - start,
    {
        let end = if len - start > size {
            start + size
        } else {
            len
        };
        let mut sum: u64 = 0;
        let mut i = start;
        while i < end
            invariant
                start <= i <= end <= len,
                len == counts@.len(),
                sum == count_sum(counts@, start as int, i - start),
            decreases end - i,
        {
            sum = sum.wrapping_add(counts[i]);
            i += 1;
        }
        proof {
            assert((g + 1) * size == start + size) by (nonlinear_arith)
                requires
                    start == g * size,
            ;
            assert(g + 1 <= end) by (nonlinear_arith)
                requires
                    g <= start,
                    start < end,
            ;
            assert(sum == group_count(counts@, size as int, g as int));
        }
        let ghost old_groups = groups@;
        if sum > 0 {
            groups.push((g, sum));
        }
        proof {
            assert forall|h: int|
                0 <= h < g + 1 && group_count(counts@, size as int, h) > 0 implies exists|k: int|
                    0 <= k < groups@.len() && #[trigger] groups@[k].0 == h by {
                if h < g {
                    let k = choose|k: int| 0 <= k < old_groups.len() && #[trigger] old_groups[k].0 == h;
                    assert(groups@[k] == old_groups[k]);
                } else {
                    assert(groups@[groups@.len() - 1].0 == h);
                }
            }
            assert(group_total(len as int, size as int) * size >= len && (group_total(len as int, size as int) - 1) * size < len) by (nonlinear_arith)
                requires
                    size > 0,
            ;
            if end < len {
                assert(g + 1 < group_total(len as int, size as int)) by (nonlinear_arith)
                    requires
                        (g + 1) * size < len,
                        group_total(len as int, size as int) * size >= len,
                        size > 0,
                ;
            } else {
                assert(g + 1 == group_total(len as int, size as int)) by (nonlinear_arith)
                    requires
                        g * size < len,
                        (g + 1) * size >= len,
                        group_total(len as int, size as int) * size >= len,
                        (group_total(len as int, size as int) - 1) * size < len,
                        size > 0,
                ;
            }
        }
        start = end;
        g += 1;
    }
    groups
}

/// The entries picked so far from `groups` are the taken ones, in ranking
/// order, and each ranks before every group not yet taken.
pub open spec fn picks_ok(entries: Seq<(usize, u64)>, groups: Seq<(usize, u64)>, taken: Seq<bool>) -> bool {
    &&& taken.len() == groups.len()
    &&& forall|i: int|
        0 <= i < entries.len() ==> exists|k: int| 0 <= k < groups.len() && taken[k] && groups[k] == #[trigger] entries[i]
    &&& forall|k: int|
        0 <= k < groups.len() && #[trigger] taken[k] ==> exists|i: int| 0 <= i < entries.len() && entries[i] == groups[k]
    &&& forall|i: int, j: int| 0 <= i < j < entries.len() ==> ranks_before(#[trigger] entries[i], #[trigger] entries[j])
    &&& forall|i: int, k: int|
        0 <= i < entries.len() && 0 <= k < groups.len() && !taken[k] ==> ranks_before(#[trigger] entries[i], #[trigger] groups[k])
}

/// Taking the best group not yet taken keeps the picks in order.
proof fn lemma_pick_best(entries: Seq<(usize, u64)>, groups: Seq<(usize, u64)>, taken: Seq<bool>, best: int)
    requires
        picks_ok(entries, groups, taken),
        0 <= best < groups.len(),
        !taken[best],
        forall|j: int| 0 <= j < groups.len() && !taken[j] && j != best ==> ranks_before(groups[best], #[trigger] groups[j]),
    ensures
        picks_ok(entries.push(groups[best]), groups, taken.update(best, true)),
{
    let e2 = entries.push(groups[best]);
    let t2 = taken.update(best, true);
    assert forall|i: int| 0 <= i < e2.len() implies exists|k: int| 0 <= k < groups.len() && t2[k] && groups[k] == #[trigger] e2[i] by {
        if i < entries.len() {
            let k = choose|k: int| 0 <= k < groups.len() && taken[k] && groups[k] == entries[i];
            assert(t2[k] && e2[i] == entries[i]);
        } else {
            assert(t2[best] && e2[i] == groups[best]);
        }
    }
    assert forall|k: int| 0 <= k < groups.len() && #[trigger] t2[k] implies exists|i: int| 0 <= i < e2.len() && e2[i] == groups[k] by {
        if k == best {
            assert(e2[entries.len() as int] == groups[k]);
        } else {
            let i = choose|i: int| 0 <= i < entries.len() && entries[i] == groups[k];
            assert(e2[i] == groups[k]);
        }
    }
    assert forall|i: int, j: int| 0 <= i < j < e2.len() implies ranks_before(#[trigger] e2[i], #[trigger] e2[j]) by {
        if j == entries.len() {
            assert(ranks_before(entries[i], groups[best]));
        } else {
            assert(e2[i] == entries[i] && e2[j] == entries[j]);
        }
    }
    assert forall|i: int, k: int| 0 <= i < e2.len() && 0 <= k < groups.len() && !t2[k] implies ranks_before(#[trigger] e2[i], #[trigger] groups[k]) by {
        if i == entries.len() {
            assert(k != best);
        } else {
            assert(!taken[k] && e2[i] == entries[i]);
        }
    }
}

/// Picks that stopped when the list was full or every group was taken form
/// the top list.
proof fn lemma_picks_top_list(
    entries: Seq<(usize, u64)>,
    groups: Seq<(usize, u64)>,
    taken: Seq<bool>,
    counts: Seq<u64>,
    size: int,
    top_n: int,
    full: bool,
)
    requires
        picks_ok(entries, groups, taken),
        entries.len() <= top_n,
        full ==> entries.len() == top_n,
        !full ==> forall|k: int| 0 <= k < groups.len() ==> #[trigger] taken[k],
        forall|k: int|
            0 <= k < groups.len() ==> {
                let e = #[trigger] groups[k];
                &&& e.0 < group_total(counts.len() as int, size)
                &&& e.1 == group_count(counts, size, e.0 as int)
                &&& e.1 > 0
            },
        forall|g: int|
            0 <= g < group_total(counts.len() as int, size) && group_count(counts, size, g) > 0
                ==> exists|k: int| 0 <= k < groups.len() && #[trigger] groups[k].0 == g,
    ensures
        is_top_list(entries, counts, size, top_n),
{
    assert forall|i: int| 0 <= i < entries.len() implies {
        let e = #[trigger] entries[i];
        &&& e.0 < group_total(counts.len() as int, size)
        &&& e.1 == group_count(counts, size, e.0 as int)
        &&& e.1 > 0
    } by {
        let k = choose|k: int| 0 <= k < groups.len() && taken[k] && groups[k] == entries[i];
        assert(groups[k] == entries[i]);
    }
    assert forall|g: int|
        0 <= g < group_total(counts.len() as int, size) && group_count(counts, size, g) > 0 && !(exists|i: int|
            0 <= i < entries.len() && #[trigger] entries[i].0 == g) implies {
        &&& entries.len() == top_n
        &&& forall|i: int| 0 <= i < entries.len() ==> ranks_before(#[trigger] entries[i], (g as usize, group_count(counts, size, g)))
    } by {
        let k = choose|k: int| 0 <= k < groups.len() && #[trigger] groups[k].0 == g;
        if taken[k] {
            let i = choose|i: int| 0 <= i < entries.len() && entries[i] == groups[k];
            assert(entries[i].0 == g);
        }
        assert(groups[k] == (g as usize, group_count(counts, size, g)));
        assert forall|i: int| 0 <= i < entries.len() implies ranks_before(#[trigger] entries[i], (g as usize, group_count(counts, size, g))) by {
            assert(ranks_before(entries[i], groups[k]));
        }
    }
}

/// The groups of `range_size` consecutive counts with a non-zero count,
/// best first (higher count, then lower group), at most `top_n` of them.
pub fn top_counts(counts: &[u64], range_size: usize, top_n: usize) -> (entries: Vec<(usize, u64)>)
    requires
        range_size > 0,
    ensures
        is_top_list(entries@, counts@, range_size as int, top_n as int),
{
    let groups = nonzero_groups(counts, range_size);
    let n = groups.len();
    let mut taken: Vec<bool> = Vec::new();
    for k in 0..n
        invariant
            taken@.len() == k,
            forall|j: int| 0 <= j < k ==> !#[trigger] taken@[j],
    {
        taken.push(false);
    }
    let mut entries: Vec<(usize, u64)> = Vec::new();
    let mut full = true;
    while entries.len() < top_n
        invariant_except_break
            n == groups@.len(),
            entries@.len() <= top_n,
            forall|k: int, l: int| 0 <= k < l < groups@.len() ==> #[trigger] groups@[k].0 < #[trigger] groups@[l].0,
            picks_ok(entries@, groups@, taken@),
            full,
        ensures
            n == groups@.len(),
            entries@.len() <= top_n,
            picks_ok(entries@, groups@, taken@),
            full ==> entries@.len() == top_n,
            !full ==> forall|k: int| 0 <= k < n ==> #[trigger] taken@[k],
        decreases top_n - entries@.len(),
    {
        let mut best: usize = n;
        for k in 0..n
            invariant
                n == groups@.len(),
                taken@.len() == n,
                forall|a: int, b: int| 0 <= a < b < groups@.len() ==> #[trigger] groups@[a].0 < #[trigger] groups@[b].0,
                best == n || (best < k && !taken@[best as int]),
                best < n ==> forall|j: int| 0 <= j < k && !taken@[j] && j != best ==> ranks_before(groups@[best as int], #[trigger] groups@[j]),
                best == n ==> forall|j: int| 0 <= j < k ==> #[trigger] taken@[j],
        {
            if !taken[k] {
                if best == n || groups[k].1 > groups[best].1 || (groups[k].1 == groups[best].1 && groups[k].0 < groups[best].0) {
                    proof {
                        if best < n {
                            assert forall|j: int| 0 <= j < k + 1 && !taken@[j] && j != k implies ranks_before(groups@[k as int], #[trigger] groups@[j]) by {
                                if j != best {
                                    assert(ranks_before(groups@[best as int], groups@[j]));
                                }
                            }
                        }
                    }
                    best = k;
                } else {
                    proof {
                        assert(groups@[best as int].0 < groups@[k as int].0);
                    }
                }
            }
        }
        if best == n {
            full = false;
            break;
        }
        proof {
            lemma_pick_best(entries@, groups@, taken@, best as int);
        }
        let chosen = groups[best];
        entries.push(chosen);
        taken.set(best, true);
    }
    proof {
        lemma_picks_top_list(entries@, groups@, taken@, counts@, range_size as int, top_n as int, full);
    }
    entries
}

} // verus!
