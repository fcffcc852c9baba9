use supermarioemu::emulator::{Cartridge, NesEmulator};
use supermarioemu::vec_env::{
    actions_are_uniform, advance_frames, check_done_on_info, copy_first_obs_to_remaining,
    copy_obs_to_peers, copy_to_peers, done_lanes,
    copy_info_lane, copy_obs_lane, done_on_info_value_fired, fill_info_from_first, frame_len,
    group_lanes_by_class, native_frame_len, plan_step, resize_plane_area, shift_stack_left, state_classes,
    synced_group_actions_are_uniform, write_current_frame_to_last_stack_slot, write_reset_stack,
    AreaResizePlan,
    DoneOnInfoOp, DoneOnInfoRule, InfoKey, InfoSnapshot, StepMode, VecEnvConfig, XorShift64,
};

fn config(grayscale: bool, frame_stack: usize, width: usize, height: usize) -> VecEnvConfig {
    VecEnvConfig {
        num_envs: 2,
        frame_skip: 4,
        grayscale,
        frame_stack,
        terminate_on_flag: true,
        crop_top: 32,
        crop_bottom: 0,
        resize_width: width,
        resize_height: height,
    }
}

fn make_emulator() -> NesEmulator {
    let mut prg_rom = vec![0xea; 0x8000];
    prg_rom[0x7ffc] = 0x00;
    prg_rom[0x7ffd] = 0x80;
    let cart = Cartridge {
        prg_rom,
        chr_rom: vec![0; 0x2000],
        vertical_mirroring: true,
    };
    NesEmulator::new_with_options(cart, true)
}

#[test]
fn info_key_names_round_trip() {
    let keys = [
        InfoKey::XPos,
        InfoKey::Coins,
        InfoKey::LevelHi,
        InfoKey::LevelLo,
        InfoKey::Lives,
        InfoKey::Score,
        InfoKey::Scrolling,
        InfoKey::Time,
        InfoKey::XScrollHi,
        InfoKey::XScrollLo,
    ];
    for key in keys {
        assert_eq!(InfoKey::from_name(key.name()), Some(key));
    }
    assert_eq!(InfoKey::XPos.name(), "x_pos");
    assert_eq!(InfoKey::LevelHi.name(), "levelHi");
    assert_eq!(InfoKey::from_name("xscrollLo"), Some(InfoKey::XScrollLo));
    assert_eq!(InfoKey::from_name("X_POS"), None);
    assert_eq!(InfoKey::from_name(""), None);
    for op in [DoneOnInfoOp::Change, DoneOnInfoOp::Increase, DoneOnInfoOp::Decrease] {
        assert_eq!(DoneOnInfoOp::from_name(op.name()), Some(op));
    }
    assert_eq!(DoneOnInfoOp::from_name("decrease"), Some(DoneOnInfoOp::Decrease));
    assert_eq!(DoneOnInfoOp::from_name("less"), None);
}

#[test]
fn done_on_info_operators_compare_with_baseline() {
    assert!(done_on_info_value_fired(DoneOnInfoOp::Change, 3, 4));
    assert!(!done_on_info_value_fired(DoneOnInfoOp::Change, 3, 3));
    assert!(done_on_info_value_fired(DoneOnInfoOp::Increase, 3, 4));
    assert!(!done_on_info_value_fired(DoneOnInfoOp::Increase, 4, 3));
    assert!(done_on_info_value_fired(DoneOnInfoOp::Decrease, 4, 3));
    assert!(!done_on_info_value_fired(DoneOnInfoOp::Decrease, 3, 3));
}

#[test]
fn check_done_on_info_records_fired_rules_in_order() {
    let mut emu = make_emulator();
    emu.lives = 2;
    emu.coins = 5;
    let mut baseline = InfoSnapshot::from_env(&emu);
    assert_eq!(baseline.value(InfoKey::Lives), 2);
    baseline.lives = 3;
    baseline.coins = 5;
    let rules = vec![
        DoneOnInfoRule {
            name: "death".to_string(),
            keys: vec![InfoKey::Lives],
            op: DoneOnInfoOp::Decrease,
        },
        DoneOnInfoRule {
            name: "coin".to_string(),
            keys: vec![InfoKey::Coins, InfoKey::Score],
            op: DoneOnInfoOp::Increase,
        },
        DoneOnInfoRule {
            name: "any".to_string(),
            keys: vec![InfoKey::Coins, InfoKey::Lives],
            op: DoneOnInfoOp::Change,
        },
    ];
    let mut fired = Vec::new();
    assert!(check_done_on_info(&emu, baseline, &rules, &mut fired));
    assert_eq!(fired.len(), 2);
    assert_eq!(fired[0].name, "death");
    assert_eq!(fired[0].previous_values, vec![3]);
    assert_eq!(fired[0].current_values, vec![2]);
    assert_eq!(fired[1].name, "any");
    assert_eq!(fired[1].keys, vec![InfoKey::Coins, InfoKey::Lives]);
    assert_eq!(fired[1].previous_values, vec![5, 3]);
    assert_eq!(fired[1].current_values, vec![5, 2]);

    let mut none = Vec::new();
    assert!(!check_done_on_info(&emu, InfoSnapshot::from_env(&emu), &rules, &mut none));
    assert!(none.is_empty());
    assert!(!check_done_on_info(&emu, baseline, &[], &mut none));
    assert_eq!(InfoSnapshot::zeroed().value(InfoKey::Score), 0);
}

#[test]
fn advance_frames_stops_when_done() {
    let mut emu = make_emulator();
    emu.done = true;
    let baseline = InfoSnapshot::from_env(&emu);
    let mut fired = Vec::new();
    let (reward, done) = advance_frames(4, &mut emu, baseline, &[], &mut fired, 1);
    assert_eq!(reward, 0);
    assert!(done);
    assert!(fired.is_empty());

    let mut emu = make_emulator();
    let baseline = InfoSnapshot::from_env(&emu);
    let (reward, done) = advance_frames(0, &mut emu, baseline, &[], &mut fired, 1);
    assert_eq!((reward, done), (0, false));
}

#[test]
fn config_sizes() {
    let gray = config(true, 4, 84, 84);
    assert_eq!(gray.source_width(), 240);
    assert_eq!(gray.source_height(), 192);
    assert_eq!(gray.channels(), 4);
    assert_eq!(gray.obs_len_per_env(), 4 * 84 * 84);
    assert!(gray.needs_resize());
    assert!(!gray.uses_default_gray_area_resize());
    assert_eq!(frame_len(gray), 84 * 84);
    assert_eq!(native_frame_len(gray), 240 * 192);
    let rgb = config(false, 2, 240, 192);
    assert_eq!(rgb.channels(), 6);
    assert!(!rgb.needs_resize());
    assert_eq!(frame_len(rgb), 240 * 192 * 3);
    assert_eq!(native_frame_len(rgb), 240 * 192 * 3);
}

#[test]
fn area_plan_bins_cover_source() {
    let plan = AreaResizePlan::new(10, 4, 3, 2);
    assert_eq!(plan.bins.len(), 6);
    let xs: Vec<(usize, usize)> = plan.bins[..3].iter().map(|b| (b.x0, b.x1)).collect();
    assert_eq!(xs, vec![(0, 3), (3, 6), (6, 10)]);
    assert_eq!((plan.bins[0].y0, plan.bins[0].y1), (0, 2));
    assert_eq!((plan.bins[3].y0, plan.bins[3].y1), (2, 4));
    assert_eq!(plan.bins[2].count, 8);
    // Upscaling repeats source pixels.
    let up = AreaResizePlan::new(2, 1, 4, 1);
    let xs: Vec<(usize, usize)> = up.bins.iter().map(|b| (b.x0, b.x1)).collect();
    assert_eq!(xs, vec![(0, 1), (0, 1), (1, 2), (1, 2)]);

    let src: Vec<u8> = (0..40).map(|i| i as u8).collect();
    let mut dst = vec![0xaa; 8];
    resize_plane_area(&src, &mut dst, &plan, 0, 1);
    // Output pixel (0, 0) averages columns 0..3 of rows 0..2: (0+1+2+10+11+12)/6 = 6.
    assert_eq!(dst[1], 6);
    // Output pixel (2, 1) averages columns 6..10 of rows 2..4.
    assert_eq!(dst[6], ((26 + 27 + 28 + 29 + 36 + 37 + 38 + 39) / 8) as u8);
    assert_eq!(dst[0], 0xaa);
    assert_eq!(dst[7], 0xaa);
}

#[test]
fn stack_shift_moves_slots_forward() {
    let cfg = config(true, 3, 2, 2);
    let mut obs: Vec<u8> = (0..12).collect();
    shift_stack_left(cfg, &mut obs);
    assert_eq!(obs, vec![4, 5, 6, 7, 8, 9, 10, 11, 8, 9, 10, 11]);
    let single = config(true, 1, 2, 2);
    let mut one: Vec<u8> = (0..4).collect();
    shift_stack_left(single, &mut one);
    assert_eq!(one, vec![0, 1, 2, 3]);
}

#[test]
fn lane_copies() {
    let mut obs: Vec<u8> = (0..10).collect();
    copy_first_obs_to_remaining(&mut obs, 3);
    assert_eq!(obs, vec![0, 1, 2, 0, 1, 2, 0, 1, 2, 9]);
    let mut obs: Vec<u8> = (0..9).collect();
    copy_obs_lane(&mut obs, 3, 2, 0);
    assert_eq!(obs, vec![6, 7, 8, 3, 4, 5, 6, 7, 8]);
    copy_obs_lane(&mut obs, 3, 1, 1);
    assert_eq!(obs, vec![6, 7, 8, 3, 4, 5, 6, 7, 8]);

    let mut x_pos = vec![1u16, 2, 3];
    let mut coins = vec![4u8, 5, 6];
    let mut level_hi = vec![1i16, 0, 0];
    let mut level_lo = vec![2i16, 0, 0];
    let mut lives = vec![3i16, 0, 0];
    let mut score = vec![7u32, 8, 9];
    let mut scrolling = vec![1i16, 1, 1];
    let mut time = vec![400u16, 300, 200];
    let mut xscroll_hi = vec![1u8, 2, 3];
    let mut xscroll_lo = vec![9u8, 8, 7];
    copy_info_lane(
        0, 2, &mut x_pos, &mut coins, &mut level_hi, &mut level_lo, &mut lives, &mut score,
        &mut scrolling, &mut time, &mut xscroll_hi, &mut xscroll_lo,
    );
    assert_eq!(x_pos, vec![1, 2, 1]);
    assert_eq!(time, vec![400, 300, 400]);
    fill_info_from_first(
        &mut x_pos, &mut coins, &mut level_hi, &mut level_lo, &mut lives, &mut score,
        &mut scrolling, &mut time, &mut xscroll_hi, &mut xscroll_lo,
    );
    assert_eq!(coins, vec![4, 4, 4]);
    assert_eq!(xscroll_lo, vec![9, 9, 9]);
}

#[test]
fn uniform_actions() {
    assert!(actions_are_uniform(&[3; 16], 3));
    let mut actions = [3u8; 16];
    actions[15] = 2;
    assert!(!actions_are_uniform(&actions, 3));
    assert!(actions_are_uniform(&[1, 1, 1], 1));
    assert!(!actions_are_uniform(&[1, 2], 1));
    assert!(actions_are_uniform(&[], 9));

    let groups = vec![vec![0, 2], vec![1, 3]];
    assert!(synced_group_actions_are_uniform(&groups, &[5, 6, 5, 6]));
    assert!(!synced_group_actions_are_uniform(&groups, &[5, 6, 5, 7]));
}

#[test]
fn lane_grouping_by_saved_state() {
    let data = vec![vec![1u8, 2], vec![3], vec![1, 2], vec![3], vec![]];
    assert_eq!(state_classes(&data), vec![0, 1, 0, 1, 4]);
    let groups = group_lanes_by_class(&[0, 1, 0, -1, 1, 4]);
    assert_eq!(groups, vec![vec![0, 2], vec![1, 4], vec![5]]);
    assert!(group_lanes_by_class(&[0, 1, 2]).is_empty());
    assert!(group_lanes_by_class(&[-1, -1]).is_empty());
}

#[test]
fn xorshift_sequence() {
    let mut rng = XorShift64::with_seed(1, 12345);
    assert_eq!(rng.next_u64(), 1082269761);
    assert_eq!(rng.next_u64(), 1152992998833853505);
    let mut rng = XorShift64::with_seed(1, 0);
    assert_eq!(rng.next_unit_numerator(), 1082269761 >> 11);
    assert_eq!(XorShift64::with_seed(0, 0x9e37_79b9_7f4a_7c15).state, 1);
    assert_eq!(XorShift64::with_seed(0, 5).state, 5 ^ 0x9e37_79b9_7f4a_7c15);
    assert_eq!(XorShift64::with_seed(7, 5).state, 7);
}

#[test]
fn reset_stack_and_step_observation_fill_slots() {
    let emu = make_emulator();
    let cfg = config(true, 3, 84, 84);
    let plan = AreaResizePlan::new(240, 192, 84, 84);
    let mut scratch = vec![0u8; 240 * 192];
    let mut obs = vec![0x55u8; 3 * 84 * 84];
    write_reset_stack(cfg, &plan, &emu, &mut scratch, &mut obs);
    let frame = obs[..84 * 84].to_vec();
    assert_eq!(&obs[84 * 84..2 * 84 * 84], &frame[..]);
    assert_eq!(&obs[2 * 84 * 84..], &frame[..]);
    let mut shifted = obs.clone();
    shifted[..84 * 84].fill(1);
    shift_stack_left(cfg, &mut shifted);
    write_current_frame_to_last_stack_slot(cfg, &plan, &emu, &mut scratch, &mut shifted);
    assert_eq!(&shifted[..2 * 84 * 84], &obs[84 * 84..]);
    assert_eq!(&shifted[2 * 84 * 84..], &frame[..]);

    // The 84x84 observation equals the fixed default writer's.
    let mut fixed = vec![0u8; 84 * 84];
    let mut shadow = vec![0u8; 240 * 192];
    emu.write_gray_frame_cropped_area_84x84(&mut fixed, &mut shadow);
    assert_eq!(fixed, frame);
}

#[test]
fn step_plans_follow_lane_sharing() {
    let no_groups: Vec<Vec<usize>> = Vec::new();
    let plan = plan_step(true, 4, false, &no_groups, &[2, 2, 2, 2]);
    assert_eq!(plan.mode, StepMode::Broadcast);
    assert!(!plan.materialize_lanes);
    let plan = plan_step(true, 4, false, &no_groups, &[2, 2, 3, 2]);
    assert_eq!(plan.mode, StepMode::Lanes);
    assert!(plan.materialize_lanes);
    let plan = plan_step(true, 4, true, &no_groups, &[2, 2, 2, 2]);
    assert_eq!(plan.mode, StepMode::Lanes);
    assert!(plan.materialize_lanes);
    let plan = plan_step(true, 1, false, &no_groups, &[2]);
    assert_eq!(plan.mode, StepMode::Lanes);
    assert!(!plan.materialize_lanes);

    let groups = vec![vec![0, 2], vec![1, 3]];
    let plan = plan_step(false, 4, false, &groups, &[5, 6, 5, 6]);
    assert_eq!(plan.mode, StepMode::Groups);
    assert!(!plan.materialize_groups);
    let plan = plan_step(false, 4, false, &groups, &[5, 6, 6, 6]);
    assert_eq!(plan.mode, StepMode::Lanes);
    assert!(plan.materialize_groups && plan.group_miss);
    let plan = plan_step(false, 4, true, &groups, &[5, 6, 5, 6]);
    assert_eq!(plan.mode, StepMode::Lanes);
    assert!(plan.materialize_groups && !plan.group_miss);
    let plan = plan_step(false, 4, false, &no_groups, &[1, 2, 3, 4]);
    assert_eq!(plan.mode, StepMode::Lanes);
    assert!(!plan.materialize_lanes && !plan.materialize_groups);
}

#[test]
fn peers_get_their_leaders_outputs() {
    let groups = group_lanes_by_class(&[0, 1, 0, -1, 1, 4]);
    assert_eq!(groups, vec![vec![0, 2], vec![1, 4], vec![5]]);
    let mut rewards = vec![1.5f32, 2.5, 0.0, 7.0, 0.0, 9.0];
    copy_to_peers(&groups, &mut rewards);
    assert_eq!(rewards, vec![1.5, 2.5, 1.5, 7.0, 2.5, 9.0]);
    let mut done = vec![true, false, false, false, true, false];
    copy_to_peers(&groups, &mut done);
    assert_eq!(done, vec![true, false, true, false, false, false]);
    let mut obs: Vec<u8> = (0..12).collect();
    copy_obs_to_peers(&groups, &mut obs, 2, 6);
    assert_eq!(obs, vec![0, 1, 2, 3, 0, 1, 6, 7, 2, 3, 10, 11]);
}

#[test]
fn done_lanes_lists_ended_episodes_in_order() {
    assert_eq!(done_lanes(&[false, true, false, false], &[false, false, false, true]), vec![1, 3]);
    assert_eq!(done_lanes(&[true, true], &[true, false]), vec![0, 1]);
    assert!(done_lanes(&[false, false], &[false, false]).is_empty());
}

#[test]
fn area_plan_accepts_large_sizes() {
    let plan = AreaResizePlan::new(70_000, 1, 2, 1);
    assert_eq!(plan.bins.len(), 2);
    assert_eq!((plan.bins[0].x0, plan.bins[0].x1, plan.bins[0].count), (0, 35_000, 35_000));
    assert_eq!((plan.bins[1].x0, plan.bins[1].x1), (35_000, 70_000));
    let src = vec![200u8; 70_000];
    let mut dst = vec![0u8; 2];
    resize_plane_area(&src, &mut dst, &plan, 0, 0);
    assert_eq!(dst, vec![200, 200]);
}

#[test]
fn advance_frames_accepts_any_frame_skip() {
    let mut emu = make_emulator();
    let baseline = InfoSnapshot::from_env(&emu);
    let mut fired = Vec::new();
    let rule = DoneOnInfoRule { name: "coin".to_string(), keys: vec![InfoKey::Coins], op: DoneOnInfoOp::Change };
    emu.ram[0x75e] = 1;
    let (reward, done) = advance_frames(100_000, &mut emu, baseline, &[rule], &mut fired, 1);
    assert!(done);
    assert_eq!(reward, 0);
    assert_eq!(fired.len(), 1);
    assert_eq!(emu.coins(), 1);
}
