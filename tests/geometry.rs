use soft_render::fixed::ONE;
use soft_render::mesh::{append_model, Dir, LoadError, Mesh, Vec3};
use soft_render::shader::{wrapped_diffuse, GasGiantShader, MetalLambert, RockyPlanetShader, SunShader, ROCKY_WRAP};
use soft_render::transform::{apply, is_back_face, Mat3};

#[test]
fn append_model_offsets_indices() {
    let mut p: Vec<i32> = Vec::new();
    let mut i: Vec<u32> = Vec::new();
    assert_eq!(append_model(&mut p, &mut i, &vec![0, 0, 0, 1, 0, 0, 0, 1, 0], &vec![0, 1, 2]), Ok(()));
    assert_eq!(append_model(&mut p, &mut i, &vec![5, 5, 5, 6, 5, 5, 5, 6, 5], &vec![2, 1, 0]), Ok(()));
    assert_eq!(p.len(), 18);
    assert_eq!(p[9], 5);
    assert_eq!(i, vec![0, 1, 2, 5, 4, 3]);
}

#[test]
fn append_model_rejects_partial_streams() {
    let mut p: Vec<i32> = vec![0, 0, 0];
    let mut i: Vec<u32> = vec![0, 0, 0];
    assert_eq!(append_model(&mut p, &mut i, &vec![1, 2], &vec![0, 0, 0]), Err(LoadError::MalformedGeometry));
    assert_eq!(append_model(&mut p, &mut i, &vec![1, 2, 3], &vec![0]), Err(LoadError::MalformedGeometry));
    assert_eq!(append_model(&mut p, &mut i, &vec![], &vec![u32::MAX, 0, 0]), Err(LoadError::MalformedGeometry));
    assert_eq!(p, vec![0, 0, 0]);
    assert_eq!(i, vec![0, 0, 0]);
}

#[test]
fn vertex_normals_are_area_weighted() {
    // Two triangles sharing the edge 0-1: one in the z = 0 plane, one in the x = 0 plane.
    let p = vec![0, 0, 0, 0, 2, 0, 2, 0, 0, 0, 0, 1];
    let i = vec![0, 1, 2, 0, 3, 1];
    let m = Mesh::from_streams(&p, &i, ONE).unwrap();
    let n = m.vertex_normals();
    assert_eq!(n.len(), 4);
    assert_eq!(m.normals, n);
    // (1 - 0) x (2 - 0) = (0,2,0) x (2,0,0) = (0, 0, -4); (3 - 0) x (1 - 0) = (0,0,1) x (0,2,0) = (-2, 0, 0).
    assert_eq!(n[0], Dir { x: -2, y: 0, z: -4 });
    assert_eq!(n[1], Dir { x: -2, y: 0, z: -4 });
    assert_eq!(n[2], Dir { x: 0, y: 0, z: -4 });
    assert_eq!(n[3], Dir { x: -2, y: 0, z: 0 });
}

#[test]
fn back_faces_are_detected() {
    let a = Vec3 { x: 0, y: 0, z: 0 };
    let b = Vec3 { x: ONE, y: 0, z: 0 };
    let c = Vec3 { x: 0, y: ONE, z: 0 };
    assert!(is_back_face(a, b, c));
    assert!(!is_back_face(a, c, b));
}

#[test]
fn model_matrix_rounds_down() {
    let half = Mat3 {
        x: Vec3 { x: ONE / 2, y: 0, z: 0 },
        y: Vec3 { x: 0, y: 0, z: -ONE },
        z: Vec3 { x: 0, y: ONE, z: 0 },
    };
    assert_eq!(apply(&half, Vec3 { x: -3, y: 7, z: 9 }), Vec3 { x: -2, y: -9, z: 7 });
}

#[test]
fn wrapped_diffuse_values() {
    assert_eq!(wrapped_diffuse(0, ONE, ROCKY_WRAP, ONE), ONE);
    // n.l = 0: ramp = 0.3 / 1.3, smoothstep of it, no ambient.
    let r = wrapped_diffuse(0, 0, ROCKY_WRAP, ONE);
    let t = ROCKY_WRAP * ONE / (ONE + ROCKY_WRAP);
    assert_eq!(r, t * t * (3 * ONE - 2 * t) / (ONE * ONE));
    assert_eq!(wrapped_diffuse(ONE, -ONE, ROCKY_WRAP, ONE), ONE);
}

#[test]
fn metal_tint_half() {
    assert_eq!(MetalLambert.tint((255, 100, 1), ONE / 2), (128, 50, 1));
}

#[test]
fn shading_model_colors() {
    // Full light: rock-brown channels at terrain 0 and terrain 1.
    assert_eq!(RockyPlanetShader.surface_color(0, 0, ONE), (135, 68, 32));
    assert_eq!(RockyPlanetShader.surface_color(ONE, ONE, ONE), (190, 138, 64));
    assert_eq!(RockyPlanetShader.surface_color(ONE, ONE, 0), (0, 0, 0));
    // Star: saturated white-yellow at full intensity, black at none.
    assert_eq!(SunShader.palette(ONE, 0), (255, 250, 173));
    assert_eq!(SunShader.palette(0, 0), (0, 0, 0));
    assert_eq!(SunShader.palette(0, ONE), (77, 64, 38));
    // Gas giant: the storm color wins at full storm weight.
    assert_eq!(GasGiantShader.cloud_color(0, 0, 0, ONE, ONE), (200, 80, 60));
    // Dark band, no clouds, no turbulence: 0.85 of the dark color.
    assert_eq!(GasGiantShader.cloud_color(0, 0, 0, 0, ONE), (128, 94, 60));
    assert_eq!(MetalLambert.intensity(ONE, 0, ONE, ONE, 0, 0, 0), ONE);
    assert_eq!(MetalLambert.intensity(0, ONE, ONE, ONE, 0, 0, 0), 45875);
    assert_eq!(MetalLambert.intensity(0, 0, ONE, ONE, 4 * ONE, 4 * ONE, 0), ONE);
}

#[test]
fn total_over_extreme_inputs() {
    // Corona far beyond one saturates every channel.
    assert_eq!(SunShader.palette(0, 100 * ONE), (255, 255, 255));
    assert_eq!(SunShader.palette(ONE, i64::MAX), (255, 255, 255));
    assert_eq!(SunShader.palette(0, i64::MIN), (0, 0, 0));
    // Fractions outside [0, 1] are clamped first.
    assert_eq!(RockyPlanetShader.surface_color(2 * ONE, -5, ONE), (190, 116, 64));
    assert_eq!(GasGiantShader.cloud_color(-1, i64::MIN, -1, 5 * ONE, i64::MAX), (200, 80, 60));
    // Flow phases at the extremes of time stay within their cycle.
    let p = soft_render::shader::flow_phases(i64::MAX, ONE, 98304);
    assert!(p.phase0 >= 0 && p.phase0 < 98304 && p.phase1 >= 0 && p.phase1 < 98304);
    let q = soft_render::shader::flow_phases(i64::MIN, ONE / 4, 98304);
    assert!(q.phase0 >= 0 && q.phase0 < 98304);
    assert_eq!(GasGiantShader.distort_uv(7, 9, i64::MAX, None), (7, 9));
}

#[test]
fn wide_texture_samples() {
    let w = 70_000usize;
    let mut data = vec![0u8; 4 * w];
    // u = (ONE - 1) / ONE falls in texel floor(65535 * 70000 / 65536) = 69998.
    data[4 * 69_998] = 200;
    let t = soft_render::texture::FlowmapTexture { width: w, height: 1, data };
    assert_eq!(t.sample(ONE - 1, 0), (200, 0, 0));
    assert_eq!(t.sample(-1, 5), (200, 0, 0));
    assert_eq!(t.sample(0, 0), (0, 0, 0));
}
