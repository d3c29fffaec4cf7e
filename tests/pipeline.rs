use soft_render::fixed::{channel, clamp01, smoothstep, ONE};
use soft_render::mesh::{LoadError, Mesh, Vec3};
use soft_render::raster::{clear_color, clear_depth, fill_triangle, ScreenTriangle, ScreenVertex, DEPTH_FAR};
use soft_render::shader::{
    flow_phases, GasGiantShader, MetalLambert, Phases, RockyPlanetShader, ShaderKind, SunShader,
};
use soft_render::texture::FlowmapTexture;
use soft_render::transform::{apply, transform_mesh, Mat3};

const H: i64 = ONE / 2;

fn cube_streams() -> (Vec<i32>, Vec<u32>) {
    let mut p = Vec::new();
    for &x in &[-H, H] {
        for &y in &[-H, H] {
            for &z in &[-H, H] {
                p.push(x as i32);
                p.push(y as i32);
                p.push(z as i32);
            }
        }
    }
    let i = vec![0, 1, 2, 1, 3, 2, 4, 5, 6, 5, 7, 6, 0, 4, 1, 4, 5, 1];
    (p, i)
}

fn sv(x: i32, y: i32, z: u32) -> ScreenVertex {
    ScreenVertex { x, y, z }
}

fn identity() -> Mat3 {
    Mat3 {
        x: Vec3 { x: ONE, y: 0, z: 0 },
        y: Vec3 { x: 0, y: ONE, z: 0 },
        z: Vec3 { x: 0, y: 0, z: ONE },
    }
}

#[test]
fn unit_cube_scale_and_center() {
    let (p, i) = cube_streams();
    let m = Mesh::from_streams(&p, &i, 100 * ONE).unwrap();
    assert_eq!(m.scale, 100 * ONE);
    assert_eq!(m.center, Vec3 { x: 0, y: 0, z: 0 });
    assert_eq!(m.positions.len(), 8);
    assert_eq!(m.indices.len(), 6);
    assert_eq!(m.indices[1], [1, 3, 2]);
}

#[test]
fn flat_mesh_scale_positive() {
    let one = ONE as i32;
    let p = vec![0, 0, 0, one, 0, 0, 0, one, 0];
    let m = Mesh::from_streams(&p, &vec![0, 1, 2], 10 * ONE).unwrap();
    assert!(m.scale > 0);
    assert_eq!(m.scale, 10 * ONE);
    let q = vec![5, 5, 5, 5, 5, 5, 5, 5, 5];
    let d = Mesh::from_streams(&q, &vec![0, 1, 2], ONE).unwrap();
    assert!(d.scale > 0);
    assert_eq!(d.scale, ONE * ONE);
}

#[test]
fn malformed_streams_rejected() {
    assert_eq!(Mesh::from_streams(&vec![0, 0], &vec![0, 0, 0], ONE).err(), Some(LoadError::MalformedGeometry));
    assert_eq!(Mesh::from_streams(&vec![0, 0, 0], &vec![0, 0], ONE).err(), Some(LoadError::MalformedGeometry));
    assert_eq!(Mesh::from_streams(&vec![], &vec![], ONE).err(), Some(LoadError::MalformedGeometry));
    assert_eq!(Mesh::from_streams(&vec![0, 0, 0], &vec![], ONE).err(), Some(LoadError::MalformedGeometry));
    assert_eq!(Mesh::from_streams(&vec![0, 0, 0], &vec![0, 0, 1], ONE).err(), Some(LoadError::MalformedGeometry));

}

#[test]
fn large_meshes_load() {
    // 512 model units along z.
    let m = Mesh::from_streams(&vec![0, 0, 0, 0, 0, 0, 0, 0, 512 << 16], &vec![0, 1, 2], 100 * ONE).unwrap();
    assert_eq!(m.center, Vec3 { x: 0, y: 0, z: 256 * ONE });
    assert_eq!(m.scale, 100 * ONE / 512);
    // The whole range of the position type.
    let p = vec![i32::MIN, i32::MIN, i32::MIN, i32::MAX, i32::MAX, i32::MAX, 0, 0, 0];
    let w = Mesh::from_streams(&p, &vec![0, 1, 2], ONE).unwrap();
    assert_eq!(w.scale, 1);
    assert_eq!(w.center, Vec3 { x: -1, y: -1, z: -1 });
    let n = w.vertex_normals();
    assert_eq!(n.len(), 3);
}

#[test]
fn screen_mapping_rounds_halves_away_from_zero() {
    let (p, i) = cube_streams();
    let m = Mesh::from_streams(&p, &i, ONE).unwrap();
    assert_eq!(m.scale, ONE);
    // -3.5 + 2 / 2 = -2.5 rounds to -3; 31 / 2 - 16 = -0.5 rounds to -1.
    assert_eq!(m.to_screen(Vec3 { x: -7 * H, y: 32 * H, z: 0 }, 2, 31), (-3, -1));
    // -0.5 + 1 = 0.5 rounds to 1; 15.5 - 15 = 0.5 rounds to 1.
    assert_eq!(m.to_screen(Vec3 { x: -H, y: 30 * H, z: 0 }, 2, 31), (1, 1));
    assert_eq!(m.to_screen_scaled(Vec3 { x: -7 * H, y: 0, z: 0 }, 2, 31, 2 * ONE), (-6, 16));
}

#[test]
fn screen_mapping_is_orthographic() {
    let (p, i) = cube_streams();
    let m = Mesh::from_streams(&p, &i, 100 * ONE).unwrap();
    assert_eq!(m.to_screen(Vec3 { x: 0, y: 0, z: 0 }, 200, 100), (100, 50));
    assert_eq!(m.to_screen(Vec3 { x: H, y: H, z: 9 * ONE }, 200, 100), (150, 0));
    assert_eq!(m.to_screen(Vec3 { x: H, y: H, z: -9 * ONE }, 200, 100), (150, 0));
    assert_eq!(m.to_screen_scaled(Vec3 { x: H, y: -H, z: 0 }, 200, 100, 2 * ONE), (200, 150));
    assert_eq!(m.to_screen(Vec3 { x: 0, y: 0, z: 0 }, 31, 31), (16, 16));
}

#[test]
fn single_triangle_depth() {
    let (w, h) = (30usize, 30usize);
    let mut color = vec![0u32; w * h];
    let mut depth = vec![0u32; w * h];
    clear_depth(&mut depth);
    let t = ScreenTriangle { a: sv(10, 10, H as u32), b: sv(20, 10, H as u32), c: sv(10, 20, H as u32) };
    fill_triangle(0xff00ff00, &mut color, &mut depth, w, h, t);
    assert_eq!(depth[12 * w + 12], H as u32);
    assert_eq!(color[12 * w + 12], 0xff00ff00);
    assert_eq!(depth[25 * w + 25], DEPTH_FAR);
    assert_eq!(color[25 * w + 25], 0);
}

#[test]
fn depth_test_order_independent() {
    let (w, h) = (16usize, 16usize);
    let near = ScreenTriangle { a: sv(0, 0, 100), b: sv(12, 0, 100), c: sv(0, 12, 100) };
    let far = ScreenTriangle { a: sv(2, 2, 900), b: sv(15, 2, 900), c: sv(2, 15, 900) };
    let mut c1 = vec![0u32; w * h];
    let mut d1 = vec![0u32; w * h];
    clear_depth(&mut d1);
    fill_triangle(1, &mut c1, &mut d1, w, h, near);
    fill_triangle(2, &mut c1, &mut d1, w, h, far);
    let mut c2 = vec![0u32; w * h];
    let mut d2 = vec![0u32; w * h];
    clear_depth(&mut d2);
    fill_triangle(2, &mut c2, &mut d2, w, h, far);
    fill_triangle(1, &mut c2, &mut d2, w, h, near);
    assert_eq!(c1, c2);
    assert_eq!(d1, d2);
    assert_eq!(c1[3 * w + 3], 1);
    assert_eq!(d1[3 * w + 3], 100);
    assert_eq!(c1[4 * w + 10], 2);
    assert_eq!(d1[4 * w + 10], 900);
}

#[test]
fn depth_reset_and_full_cover() {
    let (w, h) = (8usize, 6usize);
    let mut color = vec![7u32; w * h];
    let mut depth = vec![3u32; w * h];
    clear_depth(&mut depth);
    clear_color(&mut color, 5);
    assert!(depth.iter().all(|&d| d == DEPTH_FAR));
    assert!(color.iter().all(|&c| c == 5));
    let t = ScreenTriangle { a: sv(-20, -20, 1000), b: sv(60, -20, 1000), c: sv(-20, 60, 1000) };
    fill_triangle(9, &mut color, &mut depth, w, h, t);
    assert!(depth.iter().all(|&d| d == 1000));
    assert!(color.iter().all(|&c| c == 9));
}

#[test]
fn depth_interpolates_linearly() {
    let (w, h) = (4usize, 1usize);
    let mut color = vec![0u32; w * h];
    let mut depth = vec![DEPTH_FAR; w * h];
    let t = ScreenTriangle { a: sv(0, -4, 0), b: sv(4, -4, ONE as u32), c: sv(0, 8, 0) };
    fill_triangle(1, &mut color, &mut depth, w, h, t);
    assert_eq!(depth[0], (ONE / 8) as u32);
    assert_eq!(depth[1], (3 * ONE / 8) as u32);
}

#[test]
fn degenerate_triangle_draws_nothing() {
    let (w, h) = (10usize, 10usize);
    let mut color = vec![0u32; w * h];
    let mut depth = vec![DEPTH_FAR; w * h];
    let t = ScreenTriangle { a: sv(1, 1, 0), b: sv(5, 5, 0), c: sv(8, 8, 0) };
    fill_triangle(1, &mut color, &mut depth, w, h, t);
    assert!(depth.iter().all(|&d| d == DEPTH_FAR));
}

fn texture() -> FlowmapTexture {
    let mut data = Vec::new();
    for k in 0..6u8 {
        data.extend_from_slice(&[k * 40, 255 - k * 40, k, 255]);
    }
    FlowmapTexture { width: 3, height: 2, data }
}

#[test]
fn texture_sampling_wraps() {
    let t = texture();
    assert_eq!(t.sample(0, 0), (0, 255, 0));
    assert_eq!(t.sample(ONE / 2, ONE / 2), (160, 95, 4));
    for &(u, v) in &[(0, 0), (12345, 54321), (-7, 3 * ONE + 5), (ONE - 1, -ONE / 3)] {
        assert_eq!(t.sample(u, v), t.sample(u + ONE, v));
        assert_eq!(t.sample(u, v), t.sample(u, v + ONE));
    }
    assert_eq!(t.sample(-1, -1), t.sample(ONE - 1, ONE - 1));
    assert_eq!(t.sample_flow(0, 0), (-255, 255));
    assert_eq!(t.sample_flow(ONE / 2, ONE / 2), (65, -65));
}

#[test]
fn gas_giant_without_flowmap_keeps_uv() {
    let g = GasGiantShader;
    assert_eq!(g.distort_uv(12345, 54321, 77 * ONE, None), (12345, 54321));
    let t = texture();
    // Texel (0, 0) holds red 0 and green 255: flow (-1, 1), strength 0.2, at 1 s.
    assert_eq!(g.distort_uv(0, 0, ONE, Some(&t)), (-5826, 5824));
}

#[test]
fn flow_phase_values() {
    let p = flow_phases(0, 16384, 98304);
    assert_eq!(p, Phases { phase0: 0, phase1: 49152, blend: 0 });
    let q = flow_phases(4 * ONE, 16384, 98304);
    assert_eq!(q.phase0, ONE);
    assert_eq!(q.phase1, ONE / 4);
    assert_eq!(q.blend, ONE);
    let s = SunShader.flow_phases(ONE);
    assert_eq!(s.phase0, 26214);
}

#[test]
fn scalar_helpers() {
    assert_eq!(clamp01(-5), 0);
    assert_eq!(clamp01(2 * ONE), ONE);
    assert_eq!(smoothstep(0, ONE, ONE / 2), ONE / 2);
    assert_eq!(smoothstep(0, ONE, -3), 0);
    assert_eq!(smoothstep(ONE, 0, 0), ONE);
    assert_eq!(channel(ONE), 255);
    assert_eq!(channel(ONE / 2), 128);
    assert_eq!(channel(-ONE), 0);
}

#[test]
fn shader_selection_and_terms() {
    assert_eq!(ShaderKind::from_index(0), ShaderKind::Metal);
    assert_eq!(ShaderKind::from_index(1), ShaderKind::Star);
    assert_eq!(ShaderKind::from_index(2), ShaderKind::RockyPlanet);
    assert_eq!(ShaderKind::from_index(3), ShaderKind::GasGiant);
    assert_eq!(ShaderKind::from_index(9), ShaderKind::Metal);
    assert_eq!(MetalLambert.tint((80, 100, 140), ONE), (80, 100, 140));
    assert_eq!(MetalLambert.tint((80, 100, 140), 0), (0, 0, 0));
    assert_eq!(RockyPlanetShader.diffuse(ONE / 5, ONE), ONE);
    let g = GasGiantShader.diffuse(0, -ONE);
    assert!(g > 0 && g < ONE);
}

#[test]
fn transform_normalizes_depth() {
    let (p, i) = cube_streams();
    let m = Mesh::from_streams(&p, &i, 100 * ONE).unwrap();
    assert_eq!(apply(&identity(), Vec3 { x: 3, y: -4, z: 5 }), Vec3 { x: 3, y: -4, z: 5 });
    let f = transform_mesh(&m, &identity(), 200, 100, ONE);
    assert_eq!(f.view.len(), 8);
    assert_eq!(f.screen[0], ScreenVertex { x: 50, y: 100, z: 0 });
    assert_eq!(f.screen[7], ScreenVertex { x: 150, y: 0, z: ONE as u32 });
    assert!(f.screen.iter().all(|s| s.z <= ONE as u32));
}

#[test]
fn shared_edge_drawn_exactly_once() {
    let (w, h) = (10usize, 10usize);
    let a = sv(0, 0, 10);
    let b = sv(8, 8, 10);
    let halves = [
        ScreenTriangle { a, b, c: sv(8, 0, 10) },
        ScreenTriangle { a: b, b: a, c: sv(0, 8, 10) },
    ];
    let mut hits = vec![0u32; w * h];
    for t in halves.iter() {
        let mut color = vec![0u32; w * h];
        let mut depth = vec![DEPTH_FAR; w * h];
        fill_triangle(1, &mut color, &mut depth, w, h, *t);
        for k in 0..w * h {
            hits[k] += color[k];
        }
    }
    for y in 0..h {
        for x in 0..w {
            let expected = if x < 8 && y < 8 { 1 } else { 0 };
            assert_eq!(hits[y * w + x], expected, "pixel ({}, {})", x, y);
        }
    }
}
