//! The per-frame transform stage: model matrix, depth normalization and
//! screen projection of every vertex of a mesh.
use vstd::prelude::*;
use crate::fixed::ONE;
use crate::mesh::{
    axis_bounds, axis_max, axis_min, lemma_axis_bounds, lemma_axis_range, screen_x, screen_y, vec_ok, view_ok, Mesh, Vec3,
    MUL_MAX,
};
use crate::raster::ScreenVertex;

verus! {

/// Largest magnitude of a model-matrix entry (`ONE` is 1.0).
pub const MAT_MAX: i64 = 0x4_0000;

/// A 3x3 model matrix in fixed point, by rows.
#[derive(Clone, Copy, Debug, PartialEq, Eq, Structural)]
pub struct Mat3 {
    pub x: Vec3,
    pub y: Vec3,
    pub z: Vec3,
}

/// Per-vertex results of one frame: view-space positions and screen vertices.
pub struct Frame {
    pub view: Vec<Vec3>,
    pub screen: Vec<ScreenVertex>,
}

pub open spec fn entry_ok(c: int) -> bool {
    -MAT_MAX <= c <= MAT_MAX
}

pub open spec fn mat_ok(m: Mat3) -> bool {
    &&& entry_ok(m.x.x as int) && entry_ok(m.x.y as int) && entry_ok(m.x.z as int)
    &&& entry_ok(m.y.x as int) && entry_ok(m.y.y as int) && entry_ok(m.y.z as int)
    &&& entry_ok(m.z.x as int) && entry_ok(m.z.y as int) && entry_ok(m.z.z as int)
}

pub open spec fn dot_spec(a: Vec3, b: Vec3) -> int {
    a.x * b.x + a.y * b.y + a.z * b.z
}

/// `m` applied to `p`, each coordinate rounded down to a fixed-point unit.
pub open spec fn apply_spec(m: Mat3, p: Vec3) -> Vec3 {
    Vec3 {
        x: (dot_spec(m.x, p) / ONE as int) as i64,
        y: (dot_spec(m.y, p) / ONE as int) as i64,
        z: (dot_spec(m.z, p) / ONE as int) as i64,
    }
}

/// The depth span of the view positions, at least one unit so that it can divide.
pub open spec fn depth_span(view: Seq<Vec3>) -> int {
    let d = axis_max(view, 2) - axis_min(view, 2);
    if d < 1 {
        1
    } else {
        d
    }
}

/// Depth of `z` normalized to `[0, ONE]` over the frame's depth range.
pub open spec fn depth_norm(view: Seq<Vec3>, z: int) -> int {
    (z - axis_min(view, 2)) * ONE / depth_span(view)
}

fn dot_row(r: Vec3, p: Vec3) -> (d: i64)
    requires
        entry_ok(r.x as int) && entry_ok(r.y as int) && entry_ok(r.z as int),
        vec_ok(p),
    ensures
        d == dot_spec(r, p) / ONE as int,
        -0x10_0000_0000 <= d <= 0x10_0000_0000,
{
    proof {
        let (a, b) = (r.x as int, p.x as int);
        assert(-0x2_0000_0000_0000 <= a * b <= 0x2_0000_0000_0000) by (nonlinear_arith)
            requires
                -0x4_0000 <= a <= 0x4_0000,
                -0x8000_0000 <= b <= 0x8000_0000,
        ;
        let (a, b) = (r.y as int, p.y as int);
        assert(-0x2_0000_0000_0000 <= a * b <= 0x2_0000_0000_0000) by (nonlinear_arith)
            requires
                -0x4_0000 <= a <= 0x4_0000,
                -0x8000_0000 <= b <= 0x8000_0000,
        ;
        let (a, b) = (r.z as int, p.z as int);
        assert(-0x2_0000_0000_0000 <= a * b <= 0x2_0000_0000_0000) by (nonlinear_arith)
            requires
                -0x4_0000 <= a <= 0x4_0000,
                -0x8000_0000 <= b <= 0x8000_0000,
        ;
    }
    let s = r.x * p.x + r.y * p.y + r.z * p.z;
    let q = match s.checked_div_euclid(ONE) {
        Some(q) => q,
        None => 0,
    };
    q
}

/// Applies the model matrix to a point.
pub fn apply(m: &Mat3, p: Vec3) -> (r: Vec3)
    requires
        mat_ok(*m),
        vec_ok(p),
    ensures
        r == apply_spec(*m, p),
        view_ok(r),
{
    Vec3 { x: dot_row(m.x, p), y: dot_row(m.y, p), z: dot_row(m.z, p) }
}

/// Normalizes a view-space depth over `[z_min, z_min + span]`.
fn normalize_depth(z: i64, z_min: i64, span: i64) -> (r: u32)
    requires
        z_min <= z,
        z - z_min <= span,
        1 <= span <= 0x20_0000_0000,
        -0x10_0000_0000 <= z_min,
        z <= 0x10_0000_0000,
    ensures
        r == (z - z_min) * ONE / (span as int),
        r <= ONE,
{
    proof {
        let (d, s, one) = ((z - z_min) as int, span as int, ONE as int);
        assert(0 <= d * one <= s * one) by (nonlinear_arith)
            requires
                0 <= d <= s,
                one == 65536,
        ;
        assert(d * one / s <= one) by (nonlinear_arith)
            requires
                0 <= d * one <= s * one,
                s >= 1,
        ;
    }
    ((z - z_min) * ONE / span) as u32
}

/// Transforms every vertex of `mesh` by `model`, then, once the frame's depth
/// range is known, projects each to the screen and normalizes its depth.
pub fn transform_mesh(mesh: &Mesh, model: &Mat3, width: usize, height: usize, scale_mul: i64) -> (f: Frame)
    requires
        mesh.wf(),
        mat_ok(*model),
        width <= 0x7fff_ffff,
        height <= 0x7fff_ffff,
        0 <= scale_mul <= MUL_MAX,
    ensures
        f.view@.len() == mesh.positions@.len(),
        f.screen@.len() == mesh.positions@.len(),
        forall|i: int| 0 <= i < f.view@.len() ==> #[trigger] f.view@[i] == apply_spec(*model, mesh.positions@[i]),
        forall|i: int| 0 <= i < f.view@.len() ==> view_ok(#[trigger] f.view@[i]),
        forall|i: int|
            0 <= i < f.screen@.len() ==> {
                let v = f.view@[i];
                let s = #[trigger] f.screen@[i];
                &&& s.x == screen_x(v.x as int, mesh.center.x as int, mesh.scale as int, scale_mul as int, width as int)
                &&& s.y == screen_y(v.y as int, mesh.center.y as int, mesh.scale as int, scale_mul as int, height as int)
                &&& s.z == depth_norm(f.view@, v.z as int)
                &&& s.z <= ONE
            },
{
    let n = mesh.positions.len();
    let mut view: Vec<Vec3> = Vec::new();
    let mut i: usize = 0;
    while i < n
        invariant
            0 <= i <= n,
            n == mesh.positions@.len(),
            mesh.wf(),
            mat_ok(*model),
            view@.len() == i,
            forall|j: int| 0 <= j < i ==> #[trigger] view@[j] == apply_spec(*model, mesh.positions@[j]),
            forall|j: int| 0 <= j < i ==> view_ok(#[trigger] view@[j]),
        decreases n - i,
    {
        let q = apply(model, mesh.positions[i]);
        view.push(q);
        i = i + 1;
    }
    let (z_min, z_max) = axis_bounds(&view, 2);
    proof {
        lemma_axis_range(view@, 2, -0x10_0000_0000, 0x10_0000_0000);
    }
    let span = if z_max - z_min < 1 { 1 } else { z_max - z_min };
    let mut screen: Vec<ScreenVertex> = Vec::new();
    let mut i: usize = 0;
    while i < n
        invariant
            0 <= i <= n,
            n == mesh.positions@.len(),
            n == view@.len(),
            mesh.wf(),
            width <= 0x7fff_ffff,
            height <= 0x7fff_ffff,
            0 <= scale_mul <= MUL_MAX,
            z_min == axis_min(view@, 2),
            z_max == axis_max(view@, 2),
            span == depth_span(view@),
            -0x10_0000_0000 <= z_min <= z_max <= 0x10_0000_0000,
            screen@.len() == i,
            forall|j: int| 0 <= j < n ==> view_ok(#[trigger] view@[j]),
            forall|j: int|
                0 <= j < i ==> {
                    let v = view@[j];
                    let s = #[trigger] screen@[j];
                    &&& s.x == screen_x(v.x as int, mesh.center.x as int, mesh.scale as int, scale_mul as int, width as int)
                    &&& s.y == screen_y(v.y as int, mesh.center.y as int, mesh.scale as int, scale_mul as int, height as int)
                    &&& s.z == depth_norm(view@, v.z as int)
                    &&& s.z <= ONE
                },
        decreases n - i,
    {
        let q = view[i];
        proof {
            lemma_axis_bounds(view@, 2, i as int);
        }
        let (sx, sy) = mesh.to_screen_scaled(q, width, height, scale_mul);
        let z = normalize_depth(q.z, z_min, span);
        screen.push(ScreenVertex { x: sx, y: sy, z });
        i = i + 1;
    }
    Frame { view, screen }
}

/// The z component of `(p1 - p0) x (p2 - p0)`, the face normal's component
/// along the view axis.
pub open spec fn facing_z(p0: Vec3, p1: Vec3, p2: Vec3) -> int {
    (p1.x - p0.x) * (p2.y - p0.y) - (p1.y - p0.y) * (p2.x - p0.x)
}

/// Back-face test: a view-space triangle is culled when its face normal does
/// not point toward negative z, the way this view space is seen.
pub fn is_back_face(p0: Vec3, p1: Vec3, p2: Vec3) -> (r: bool)
    requires
        view_ok(p0),
        view_ok(p1),
        view_ok(p2),
    ensures
        r == (facing_z(p0, p1, p2) >= 0),
{
    let (ax, ay) = ((p1.x as i128) - (p0.x as i128), (p1.y as i128) - (p0.y as i128));
    let (bx, by) = ((p2.x as i128) - (p0.x as i128), (p2.y as i128) - (p0.y as i128));
    proof {
        assert(-0x400_0000_0000_0000_0000 <= ax * by <= 0x400_0000_0000_0000_0000) by (nonlinear_arith)
            requires
                -0x20_0000_0000 <= ax <= 0x20_0000_0000,
                -0x20_0000_0000 <= by <= 0x20_0000_0000,
        ;
        assert(-0x400_0000_0000_0000_0000 <= ay * bx <= 0x400_0000_0000_0000_0000) by (nonlinear_arith)
            requires
                -0x20_0000_0000 <= ay <= 0x20_0000_0000,
                -0x20_0000_0000 <= bx <= 0x20_0000_0000,
        ;
    }
    ax * by - ay * bx >= 0
}

} // verus!
