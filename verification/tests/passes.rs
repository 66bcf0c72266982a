use fluid_core::bloom::{bloom_passes, BloomStage, BloomSurface};
use fluid_core::controls::{key_action, KeyAction, BURST_END, BURST_MIN};
use fluid_core::double_fbo::DoubleFbo;
use fluid_core::surface::{bind_group_layout_plan, first_match_or_first, BindingKind, SurfaceSize};

#[test]
fn bloom_needs_two_levels() {
    assert!(bloom_passes((455, 256), &vec![]).is_empty());
    assert!(bloom_passes((455, 256), &vec![(227, 128)]).is_empty());
}

#[test]
fn bloom_passes_go_down_then_up() {
    let base = (455, 256);
    let levels = vec![(227, 128), (113, 64), (56, 32)];
    let p = bloom_passes(base, &levels);
    assert_eq!(p.len(), 7);
    let got: Vec<_> = p.iter().map(|x| (x.stage, x.source, x.target, x.texel)).collect();
    assert_eq!(
        got,
        vec![
            (BloomStage::Prefilter, BloomSurface::Dye, BloomSurface::Base, (455, 256)),
            (BloomStage::Downsample, BloomSurface::Base, BloomSurface::Level(0), (455, 256)),
            (BloomStage::Downsample, BloomSurface::Level(0), BloomSurface::Level(1), (227, 128)),
            (BloomStage::Downsample, BloomSurface::Level(1), BloomSurface::Level(2), (113, 64)),
            (BloomStage::Upsample, BloomSurface::Level(2), BloomSurface::Level(1), (56, 32)),
            (BloomStage::Upsample, BloomSurface::Level(1), BloomSurface::Level(0), (113, 64)),
            (BloomStage::Composite, BloomSurface::Level(0), BloomSurface::Base, (227, 128)),
        ]
    );
}

#[test]
fn bloom_texel_is_source_size() {
    let base = (1000, 500);
    let levels = vec![(500, 250), (250, 125), (125, 62), (62, 31)];
    for pass in bloom_passes(base, &levels) {
        let size = match pass.source {
            BloomSurface::Dye | BloomSurface::Base => base,
            BloomSurface::Level(k) => levels[k],
        };
        assert_eq!(pass.texel, size);
    }
}

#[test]
fn swap_exchanges_and_twice_restores() {
    let mut d = DoubleFbo { read: "a", write: "b", width: 4, height: 3 };
    d.swap();
    assert_eq!((d.read, d.write, d.width, d.height), ("b", "a", 4, 3));
    d.swap();
    assert_eq!((d.read, d.write), ("a", "b"));
}

#[test]
fn swap_parity_after_pressure_iterations() {
    let mut d = DoubleFbo { read: 1u8, write: 2u8, width: 1, height: 1 };
    for _ in 0..(1 + 20) {
        d.swap();
    }
    assert_eq!((d.read, d.write), (2, 1));
}

#[test]
fn resize_ignores_zero_sides() {
    let mut s = SurfaceSize { width: 1280, height: 720 };
    assert!(!s.resize(0, 720));
    assert!(!s.resize(1280, 0));
    assert_eq!(s, SurfaceSize { width: 1280, height: 720 });
    assert!(s.resize(800, 600));
    assert_eq!(s, SurfaceSize { width: 800, height: 600 });
}

#[test]
fn first_match_or_first_prefers_match() {
    assert_eq!(first_match_or_first(&vec![false, true, true]), 1);
    assert_eq!(first_match_or_first(&vec![true, false]), 0);
    assert_eq!(first_match_or_first(&vec![false, false, false]), 0);
    assert_eq!(first_match_or_first(&vec![false]), 0);
}

#[test]
fn layout_plan_orders_bindings() {
    assert_eq!(bind_group_layout_plan(0), vec![BindingKind::Uniform, BindingKind::Sampler]);
    assert_eq!(bind_group_layout_plan(1), vec![BindingKind::Uniform, BindingKind::Texture, BindingKind::Sampler]);
    assert_eq!(bind_group_layout_plan(3), vec![
            BindingKind::Uniform,
            BindingKind::Texture,
            BindingKind::Texture,
            BindingKind::Texture,
            BindingKind::Sampler
        ]);
}

#[test]
fn keys_map_to_actions() {
    assert_eq!(key_action('p'), KeyAction::TogglePause);
    assert_eq!(key_action('P'), KeyAction::TogglePause);
    assert_eq!(key_action('b'), KeyAction::ToggleBloom);
    assert_eq!(key_action('S'), KeyAction::ToggleSunrays);
    assert_eq!(key_action('h'), KeyAction::ToggleShading);
    assert_eq!(key_action('x'), KeyAction::Ignore);
    assert_eq!(key_action('1'), KeyAction::Ignore);
}

#[test]
fn space_bursts_a_random_number_of_splats() {
    let mut seen = std::collections::BTreeSet::new();
    for _ in 0..500 {
        match key_action(' ') {
            KeyAction::Burst(n) => {
                assert!(BURST_MIN <= n && n < BURST_END);
                seen.insert(n);
            }
            other => panic!("unexpected {:?}", other),
        }
    }
    assert!(seen.len() > 1);
}
