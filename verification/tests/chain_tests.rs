use lensing::pipelines::{
    build_chain, grow, halve_times, ray_resolutions, workgroup_count, BloomDirection, ChainError,
    Resolution, StageKind,
};
use lensing::quad::{Quad, Vertex};
use lensing::screen::{fit_to_surface, ScreenFit};

fn res(width: u32, height: u32) -> Resolution {
    Resolution { width, height }
}

#[test]
fn growth_formula_on_given_sizes() {
    assert_eq!(grow(8, 4), Some(29));
    assert_eq!(grow(4, 4), Some(13));
    assert_eq!(grow(29, 4), Some(113));
    assert_eq!(grow(5, 1), Some(5));
    assert_eq!(grow(1, 4_000_000_000), Some(1));
    assert_eq!(grow(7, 0), Some(1));
    assert_eq!(grow(0, 1), Some(0));
    assert_eq!(grow(0, 4), None);
    assert_eq!(grow(u32::MAX, 2), None);
    assert_eq!(grow(u32::MAX, 1), Some(u32::MAX));
    assert_eq!(grow(1_073_741_824, 4), Some(4_294_967_293));
    assert_eq!(grow(1_073_741_825, 4), None);
}

#[test]
fn ray_stages_grow_from_the_base() {
    assert_eq!(
        ray_resolutions(res(8, 4), 4, 5),
        Some(vec![res(8, 4), res(29, 13), res(113, 49), res(449, 193), res(1793, 769)])
    );
    assert_eq!(ray_resolutions(res(8, 4), 4, 0), Some(vec![]));
    assert_eq!(ray_resolutions(res(0, 0), 4, 1), Some(vec![res(0, 0)]));
    assert_eq!(ray_resolutions(res(0, 0), 4, 2), None);
    assert_eq!(ray_resolutions(res(9, 5), 2, 3), Some(vec![res(9, 5), res(17, 9), res(33, 17)]));
    assert_eq!(ray_resolutions(res(1, u32::MAX), 3, 2), None);
}

#[test]
fn halving_rounds_down() {
    assert_eq!(halve_times(1793, 0), 1793);
    assert_eq!(halve_times(1793, 1), 896);
    assert_eq!(halve_times(1793, 6), 28);
    assert_eq!(halve_times(769, 6), 12);
    assert_eq!(halve_times(5, 40), 0);
}

#[test]
fn chain_of_the_renderer() {
    let chain = build_chain(res(8, 4), 4, 5, 6).unwrap();
    assert_eq!(chain.ray_stages, 5);
    assert_eq!(chain.bloom_stages, 6);
    assert_eq!(chain.stages.len(), 22);
    let rays = [res(8, 4), res(29, 13), res(113, 49), res(449, 193), res(1793, 769)];
    for i in 0..5 {
        assert_eq!(chain.stages[i].kind, StageKind::Ray);
        assert_eq!(chain.stages[i].resolution, rays[i]);
    }
    assert_eq!(chain.stages[0].input, None);
    assert_eq!(chain.stages[5].kind, StageKind::Sky);
    assert_eq!(chain.stages[5].resolution, res(1793, 769));
    let blooms = [
        res(896, 384),
        res(448, 192),
        res(224, 96),
        res(112, 48),
        res(56, 24),
        res(28, 12),
        res(56, 24),
        res(112, 48),
        res(224, 96),
        res(448, 192),
        res(896, 384),
        res(1793, 769),
    ];
    for b in 0..12 {
        let direction = if b < 6 { BloomDirection::Down } else { BloomDirection::Up };
        assert_eq!(chain.stages[6 + b].kind, StageKind::Bloom(direction));
        assert_eq!(chain.stages[6 + b].resolution, blooms[b]);
    }
    assert_eq!(chain.stages[18].kind, StageKind::Mix);
    assert_eq!(chain.stages[18].input, Some(5));
    assert_eq!(chain.stages[18].second_input, Some(17));
    assert_eq!(chain.stages[19].kind, StageKind::Hdr);
    assert_eq!(chain.stages[20].kind, StageKind::Fxaa);
    assert_eq!(chain.stages[21].kind, StageKind::Screen);
    for i in 18..22 {
        assert_eq!(chain.stages[i].resolution, res(1793, 769));
    }
    for i in 1..22 {
        if i != 18 {
            assert_eq!(chain.stages[i].input, Some(i - 1));
            assert_eq!(chain.stages[i].second_input, None);
        }
    }
}

#[test]
fn smallest_chain() {
    let chain = build_chain(res(3, 2), 1, 1, 1).unwrap();
    assert_eq!(chain.stages.len(), 8);
    assert_eq!(chain.stages[0].kind, StageKind::Ray);
    assert_eq!(chain.stages[1].kind, StageKind::Sky);
    assert_eq!(chain.stages[2].kind, StageKind::Bloom(BloomDirection::Down));
    assert_eq!(chain.stages[2].resolution, res(1, 1));
    assert_eq!(chain.stages[3].kind, StageKind::Bloom(BloomDirection::Up));
    assert_eq!(chain.stages[3].resolution, res(3, 2));
    assert_eq!(chain.stages[4].kind, StageKind::Mix);
    assert_eq!(chain.stages[4].input, Some(1));
    assert_eq!(chain.stages[4].second_input, Some(3));
}

#[test]
fn chain_errors() {
    assert_eq!(build_chain(res(8, 4), 4, 0, 6).err(), Some(ChainError::NoRayStage));
    assert_eq!(build_chain(res(8, 4), 4, 0, 0).err(), Some(ChainError::NoRayStage));
    assert_eq!(build_chain(res(8, 4), 4, 5, 0).err(), Some(ChainError::NoBloomStage));
    assert_eq!(build_chain(res(8, 4), 4, 40, 6).err(), Some(ChainError::ResolutionOutOfRange));
    assert_eq!(build_chain(res(0, 4), 4, 2, 1).err(), Some(ChainError::ResolutionOutOfRange));
}

#[test]
fn stages_run_in_chain_order() {
    let chain = build_chain(res(8, 4), 4, 5, 6).unwrap();
    assert_eq!(chain.execution_order(), (0..22).collect::<Vec<usize>>());
    for (i, stage) in chain.stages.iter().enumerate() {
        assert_eq!(stage.kind.is_compute(), i <= 5);
        if let Some(input) = stage.input {
            assert!(input < i);
        }
        if let Some(input) = stage.second_input {
            assert!(input < i);
        }
    }
}

#[test]
fn wide_image_fills_the_width() {
    assert_eq!(
        fit_to_surface(res(1793, 769), res(1280, 720)),
        Some(ScreenFit { x: 0, y: 306_640, w: 2_581_920, h: 1_968_640, den: 2_581_920 })
    );
}

#[test]
fn tall_image_fills_the_height() {
    assert_eq!(
        fit_to_surface(res(100, 200), res(400, 400)),
        Some(ScreenFit { x: 40_000, y: 0, w: 80_000, h: 160_000, den: 160_000 })
    );
}

#[test]
fn image_of_the_surface_shape_fills_it() {
    assert_eq!(
        fit_to_surface(res(16, 9), res(1920, 1080)),
        Some(ScreenFit { x: 0, y: 0, w: 34_560, h: 34_560, den: 34_560 })
    );
}

#[test]
fn no_fit_without_a_size() {
    assert_eq!(fit_to_surface(res(0, 9), res(1920, 1080)), None);
    assert_eq!(fit_to_surface(res(16, 0), res(1920, 1080)), None);
    assert_eq!(fit_to_surface(res(16, 9), res(0, 1080)), None);
    assert_eq!(fit_to_surface(res(16, 9), res(1920, 0)), None);
}

#[test]
fn fit_of_the_largest_sizes() {
    let fit = fit_to_surface(res(u32::MAX, 1), res(1, u32::MAX)).unwrap();
    let full = 2 * (u32::MAX as u128) * (u32::MAX as u128);
    assert_eq!(fit.den, full);
    assert_eq!(fit.w, full);
    assert_eq!(fit.h, 2);
    assert_eq!(fit.x, 0);
    assert_eq!(fit.y, (u32::MAX as u128) * (u32::MAX as u128) - 1);
}

#[test]
fn quad_corners_in_drawing_order() {
    let quad = Quad::new(0, 1, 4, 2, 4);
    assert_eq!(quad.get_den(), 4);
    assert_eq!(
        quad.get_vertices(),
        &[
            Vertex { x: -4, y: -2, u: 0, v: 1 },
            Vertex { x: 4, y: -2, u: 1, v: 1 },
            Vertex { x: 4, y: 2, u: 1, v: 0 },
            Vertex { x: -4, y: -2, u: 0, v: 1 },
            Vertex { x: 4, y: 2, u: 1, v: 0 },
            Vertex { x: -4, y: 2, u: 0, v: 0 },
        ]
    );
}

#[test]
fn quad_over_the_whole_surface() {
    let quad = Quad::new(0, 0, 1, 1, 1);
    let v = quad.get_vertices();
    assert_eq!((v[0].x, v[0].y), (-1, -1));
    assert_eq!((v[2].x, v[2].y), (1, 1));
    assert_eq!((v[5].x, v[5].y), (-1, 1));
}

#[test]
fn work_groups_cover_the_resolution() {
    assert_eq!(workgroup_count(0), 0);
    assert_eq!(workgroup_count(1), 1);
    assert_eq!(workgroup_count(8), 1);
    assert_eq!(workgroup_count(9), 2);
    assert_eq!(workgroup_count(1793), 225);
    assert_eq!(workgroup_count(769), 97);
    assert_eq!(workgroup_count(u32::MAX), 536_870_912);
}
