use fluid_core::layout::{bloom_levels, config_requires_rebuild, ResolutionSettings, SimLayout};
use fluid_core::resolution::get_resolution;

#[test]
fn landscape_surface_keeps_res_on_height() {
    assert_eq!(get_resolution(128, 1280, 720), (228, 128));
    assert_eq!(get_resolution(1024, 1280, 720), (1820, 1024));
    assert_eq!(get_resolution(256, 1920, 1080), (455, 256));
}

#[test]
fn portrait_surface_keeps_res_on_width() {
    assert_eq!(get_resolution(128, 720, 1280), (128, 228));
    assert_eq!(get_resolution(196, 1080, 1920), (196, 348));
}

#[test]
fn square_surface_gives_square_target() {
    assert_eq!(get_resolution(128, 800, 800), (128, 128));
    assert_eq!(get_resolution(7, 1, 1), (7, 7));
}

#[test]
fn rounding_goes_to_nearest_texel() {
    // 10 * 3 / 2 = 15 exactly; 10 * 5 / 3 = 16.67 -> 17; 10 * 7 / 4 = 17.5 -> 18
    assert_eq!(get_resolution(10, 3, 2), (15, 10));
    assert_eq!(get_resolution(10, 5, 3), (17, 10));
    assert_eq!(get_resolution(10, 7, 4), (18, 10));
    // the portrait aspect 4/7 is inverted in single precision: 17.499998 -> 17
    assert_eq!(get_resolution(10, 4, 7), (10, 17));
}

#[test]
fn degenerate_surfaces() {
    assert_eq!(get_resolution(128, 1280, 0), (u32::MAX, 128));
    assert_eq!(get_resolution(128, 0, 720), (128, u32::MAX));
    assert_eq!(get_resolution(128, 0, 0), (128, 0));
    assert_eq!(get_resolution(0, 1280, 0), (0, 0));
}

#[test]
fn huge_aspect_saturates() {
    assert_eq!(get_resolution(u32::MAX, u32::MAX, 1), (u32::MAX, u32::MAX));
    assert_eq!(get_resolution(4096, 1_000_000, 1), (4_096_000_000, 4096));
    assert_eq!(get_resolution(4096, 2_000_000, 1), (u32::MAX, 4096));
}

#[test]
fn portrait_aspect_is_inverted_in_single_precision() {
    assert_eq!(get_resolution(32, 211, 64), (106, 32));
    assert_eq!(get_resolution(32, 64, 211), (32, 105));
    assert_eq!(get_resolution(196, 384, 720), (196, 367));
    assert_eq!(get_resolution(100, 564, 480), (117, 100));
}

#[test]
fn scaled_surface_gives_same_target() {
    assert_eq!(get_resolution(128, 1280, 720), get_resolution(128, 16, 9));
    assert_eq!(get_resolution(1024, 2560, 1440), get_resolution(1024, 1280, 720));
}

#[test]
fn longer_side_never_below_res() {
    for &(w, h) in &[(1281u32, 1280u32), (1, 2), (5, 3), (0, 5), (5, 0)] {
        let (a, b) = get_resolution(100, w, h);
        assert!(a >= 100 && b >= 100);
    }
}

#[test]
fn bloom_chain_halves_until_too_small() {
    assert_eq!(bloom_levels(455, 256, 8), vec![(227, 128), (113, 64), (56, 32), (28, 16), (14, 8), (7, 4), (3, 2)]);
    assert_eq!(bloom_levels(455, 256, 3), vec![(227, 128), (113, 64), (56, 32)]);
    assert_eq!(bloom_levels(455, 256, 0), vec![]);
    assert_eq!(bloom_levels(5, 5, 8), vec![(2, 2)]);
    assert_eq!(bloom_levels(3, 100, 8), vec![]);
}

#[test]
fn each_bloom_level_halves_the_previous() {
    let levels = bloom_levels(4000, 3000, 12);
    for k in 1..levels.len() {
        assert_eq!(levels[k], (levels[k - 1].0 / 2, levels[k - 1].1 / 2));
        assert!(levels[k].0 >= 2 && levels[k].1 >= 2);
    }
}

fn defaults() -> ResolutionSettings {
    ResolutionSettings {
        sim_resolution: 128,
        dye_resolution: 1024,
        bloom_resolution: 256,
        bloom_iterations: 8,
        sunrays_resolution: 196,
    }
}

#[test]
fn layout_for_default_settings() {
    let layout = SimLayout::new(&defaults(), 1280, 720);
    assert_eq!(layout.sim, (228, 128));
    assert_eq!(layout.dye, (1820, 1024));
    assert_eq!(layout.bloom, (455, 256));
    assert_eq!(layout.sunrays, (348, 196));
    assert_eq!(layout.bloom_levels, bloom_levels(455, 256, 8));
}

#[test]
fn rebuild_only_when_a_size_setting_changes() {
    let a = defaults();
    assert!(!config_requires_rebuild(&a, &a));
    let mut b = a;
    b.bloom_iterations = 4;
    assert!(config_requires_rebuild(&a, &b));
    assert!(config_requires_rebuild(&b, &a));
    let mut c = a;
    c.dye_resolution = 512;
    assert!(config_requires_rebuild(&a, &c));
    let mut d = a;
    d.sunrays_resolution = 0;
    assert!(config_requires_rebuild(&a, &d));
}

/// The sizing as the single-precision computation gives it.
fn single_precision(res: u32, width: u32, height: u32) -> (u32, u32) {
    let aspect = width as f32 / height as f32;
    let aspect = if aspect < 1.0 { 1.0 / aspect } else { aspect };
    let min = res;
    let max = (res as f32 * aspect).round() as u32;
    if width > height { (max, min) } else { (min, max) }
}

#[test]
fn matches_single_precision_arithmetic() {
    let resolutions = [1u32, 7, 32, 128, 196, 256, 1000, 1024, 4096, 16_777_217, 123_456_789, u32::MAX];
    let sides = [0u32, 1, 2, 3, 5, 64, 211, 384, 480, 564, 720, 1080, 1280, 1920, 16_777_217, 99_999_999, u32::MAX];
    for &res in &resolutions {
        for &w in &sides {
            for &h in &sides {
                assert_eq!(get_resolution(res, w, h), single_precision(res, w, h), "res {res} on {w}x{h}");
            }
        }
    }
    for w in 1..300u32 {
        for h in (1..300u32).step_by(7) {
            assert_eq!(get_resolution(32, w, h), single_precision(32, w, h), "res 32 on {w}x{h}");
        }
    }
}
