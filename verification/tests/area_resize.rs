use supermarioemu::emulator::{RGB_CHANNELS, VISIBLE_FRAME_HEIGHT, VISIBLE_FRAME_WIDTH};
use supermarioemu::vec_env::{resize_frame_area, AreaResizePlan, VecEnvConfig};

#[allow(clippy::too_many_arguments)]
fn reference_resize_plane_area(
    src: &[u8],
    dst: &mut [u8],
    src_width: usize,
    src_height: usize,
    dst_width: usize,
    dst_height: usize,
    src_offset: usize,
    dst_offset: usize,
) {
    let plan = AreaResizePlan::new(src_width, src_height, dst_width, dst_height);
    for (dst_i, bin) in plan.bins.iter().enumerate() {
        let mut sum = 0u32;
        for sy in bin.y0..bin.y1 {
            let src_row = src_offset + sy * src_width;
            for sx in bin.x0..bin.x1 {
                sum += src[src_row + sx] as u32;
            }
        }
        dst[dst_offset + dst_i] = (sum / bin.count) as u8;
    }
}

#[test]
fn precomputed_area_resize_matches_reference_default_grayscale() {
    let config = VecEnvConfig {
        num_envs: 16,
        frame_skip: 4,
        grayscale: true,
        frame_stack: 4,
        terminate_on_flag: true,
        crop_top: 32,
        crop_bottom: 0,
        resize_width: 84,
        resize_height: 84,
    };
    let plan = AreaResizePlan::new(config.source_width(), config.source_height(), 84, 84);
    let src_len = config.source_width() * config.source_height();
    let src = (0..src_len)
        .map(|idx| ((idx * 37 + idx / 251 + 19) & 0xff) as u8)
        .collect::<Vec<_>>();
    let mut optimized = vec![0; 84 * 84];
    let mut reference = vec![0; 84 * 84];

    resize_frame_area(config, &plan, &src, &mut optimized);
    reference_resize_plane_area(
        &src,
        &mut reference,
        config.source_width(),
        config.source_height(),
        84,
        84,
        0,
        0,
    );

    assert_eq!(optimized, reference);
}

#[test]
fn precomputed_area_resize_matches_reference_rgb_planes() {
    let src_width = VISIBLE_FRAME_WIDTH;
    let src_height = VISIBLE_FRAME_HEIGHT - 32;
    let dst_width = 84;
    let dst_height = 84;
    let config = VecEnvConfig {
        num_envs: 1,
        frame_skip: 4,
        grayscale: false,
        frame_stack: 1,
        terminate_on_flag: true,
        crop_top: 32,
        crop_bottom: 0,
        resize_width: dst_width,
        resize_height: dst_height,
    };
    let plan = AreaResizePlan::new(src_width, src_height, dst_width, dst_height);
    let src_plane = src_width * src_height;
    let dst_plane = dst_width * dst_height;
    let src = (0..src_plane * RGB_CHANNELS)
        .map(|idx| ((idx * 17 + idx / 97 + 31) & 0xff) as u8)
        .collect::<Vec<_>>();
    let mut optimized = vec![0; dst_plane * RGB_CHANNELS];
    let mut reference = vec![0; dst_plane * RGB_CHANNELS];

    resize_frame_area(config, &plan, &src, &mut optimized);
    for channel in 0..RGB_CHANNELS {
        reference_resize_plane_area(
            &src,
            &mut reference,
            src_width,
            src_height,
            dst_width,
            dst_height,
            channel * src_plane,
            channel * dst_plane,
        );
    }

    assert_eq!(optimized, reference);
}
