//! Triangle meshes in fixed-point model coordinates, their bounding box,
//! center and screen-fit scale, and the orthographic screen mapping.
use vstd::prelude::*;
use crate::fixed::ONE;

verus! {

/// Bound on the magnitude of a model coordinate (`ONE` per model unit):
/// coordinates arrive as `i32`, so every one of them is within it.
pub const COORD_MAX: i64 = 0x8000_0000;

/// Largest accepted target extent, in fixed-point pixels.
pub const TARGET_MAX: i64 = 0x100_0000_0000;

/// A point or direction with fixed-point coordinates.
#[derive(Clone, Copy, Debug, PartialEq, Eq, Structural)]
pub struct Vec3 {
    pub x: i64,
    pub y: i64,
    pub z: i64,
}

/// Why a mesh could not be built.
#[derive(Clone, Copy, Debug, PartialEq, Eq, Structural)]
pub enum LoadError {
    /// A position or index stream whose length is not a multiple of three, an
    /// index past the vertex count, or no vertex or no triangle at all.
    MalformedGeometry,
}

/// Triangle geometry with its bounding-box center and the uniform scale that
/// maps its largest bounding-box dimension to a target pixel extent.
pub struct Mesh {
    pub positions: Vec<Vec3>,
    pub indices: Vec<[u32; 3]>,
    /// Midpoint of the bounding box (rounded down).
    pub center: Vec3,
    /// Fixed-point pixels per model unit.
    pub scale: i64,
    /// Smooth vertex normals: for each vertex, the area-weighted sum of the
    /// normals of the faces that use it (see `vertex_normals`).
    pub normals: Vec<Dir>,
}

pub open spec fn coord_ok(c: int) -> bool {
    -COORD_MAX <= c <= COORD_MAX
}

pub open spec fn vec_ok(v: Vec3) -> bool {
    coord_ok(v.x as int) && coord_ok(v.y as int) && coord_ok(v.z as int)
}

pub open spec fn axis(v: Vec3, a: int) -> int {
    if a == 0 {
        v.x as int
    } else if a == 1 {
        v.y as int
    } else {
        v.z as int
    }
}

/// Smallest coordinate along axis `a` among the points.
pub open spec fn axis_min(s: Seq<Vec3>, a: int) -> int
    decreases s.len(),
{
    if s.len() <= 1 {
        if s.len() == 0 {
            0
        } else {
            axis(s[0], a)
        }
    } else {
        let m = axis_min(s.drop_last(), a);
        if axis(s.last(), a) < m {
            axis(s.last(), a)
        } else {
            m
        }
    }
}

/// Largest coordinate along axis `a` among the points.
pub open spec fn axis_max(s: Seq<Vec3>, a: int) -> int
    decreases s.len(),
{
    if s.len() <= 1 {
        if s.len() == 0 {
            0
        } else {
            axis(s[0], a)
        }
    } else {
        let m = axis_max(s.drop_last(), a);
        if axis(s.last(), a) > m {
            axis(s.last(), a)
        } else {
            m
        }
    }
}

/// Bounding-box midpoint along axis `a`.
pub open spec fn center_spec(s: Seq<Vec3>, a: int) -> int {
    axis_min(s, a) + (axis_max(s, a) - axis_min(s, a)) / 2
}

/// Largest bounding-box dimension, at least one fixed-point unit so that it
/// can divide.
pub open spec fn max_dim(s: Seq<Vec3>) -> int {
    let dx = axis_max(s, 0) - axis_min(s, 0);
    let dy = axis_max(s, 1) - axis_min(s, 1);
    let dz = axis_max(s, 2) - axis_min(s, 2);
    let m = if dx >= dy && dx >= dz {
        dx
    } else if dy >= dz {
        dy
    } else {
        dz
    };
    if m < 1 {
        1
    } else {
        m
    }
}

/// The scale that maps the largest dimension to `target` fixed-point pixels.
pub open spec fn scale_spec(s: Seq<Vec3>, target: int) -> int {
    target * ONE / max_dim(s)
}

/// Vertex `i` of a flat position stream.
pub open spec fn vertex_of(positions: Seq<i32>, i: int) -> Vec3 {
    Vec3 { x: positions[3 * i] as i64, y: positions[3 * i + 1] as i64, z: positions[3 * i + 2] as i64 }
}

/// Triangle `f` of a flat index stream.
pub open spec fn face_of(indices: Seq<u32>, f: int) -> [u32; 3] {
    [indices[3 * f], indices[3 * f + 1], indices[3 * f + 2]]
}

/// The streams are malformed: not whole vertices or not whole triangles, no
/// vertex or no triangle, or an index that names no vertex.
pub open spec fn streams_malformed(positions: Seq<i32>, indices: Seq<u32>) -> bool {
    ||| positions.len() % 3 != 0
    ||| indices.len() % 3 != 0
    ||| positions.len() == 0
    ||| indices.len() == 0
    ||| exists|k: int| 0 <= k < indices.len() && 3 * indices[k] >= positions.len()
}

impl Mesh {
    /// Every triangle names existing vertices, coordinates are in range, and
    /// center and scale are those of the bounding box.
    pub open spec fn wf(&self) -> bool {
        &&& self.positions@.len() > 0
        &&& forall|i: int| 0 <= i < self.positions@.len() ==> vec_ok(#[trigger] self.positions@[i])
        &&& forall|f: int, j: int|
            0 <= f < self.indices@.len() && 0 <= j < 3 ==> (#[trigger] self.indices@[f][j]) < self.positions@.len()
        &&& self.center.x == center_spec(self.positions@, 0)
        &&& self.center.y == center_spec(self.positions@, 1)
        &&& self.center.z == center_spec(self.positions@, 2)
        &&& 0 < self.scale <= TARGET_MAX * ONE
    }
}

/// Smallest and largest coordinate along axis `a`.
pub(crate) fn axis_bounds(pts: &Vec<Vec3>, a: usize) -> (r: (i64, i64))
    requires
        pts@.len() > 0,
        a < 3,
    ensures
        r.0 == axis_min(pts@, a as int),
        r.1 == axis_max(pts@, a as int),
        r.0 <= r.1,
{
    let first = if a == 0 { pts[0].x } else if a == 1 { pts[0].y } else { pts[0].z };
    let mut lo = first;
    let mut hi = first;
    let mut k: usize = 1;
    assert(pts@.take(1).len() == 1);
    assert(pts@.take(1)[0] == pts@[0]);
    while k < pts.len()
        invariant
            1 <= k <= pts@.len(),
            a < 3,
            lo == axis_min(pts@.take(k as int), a as int),
            hi == axis_max(pts@.take(k as int), a as int),
            lo <= hi,
        decreases pts@.len() - k,
    {
        let p = pts[k];
        let c = if a == 0 { p.x } else if a == 1 { p.y } else { p.z };
        assert(pts@.take(k as int + 1).drop_last() == pts@.take(k as int));
        assert(pts@.take(k as int + 1).last() == p);
        if c < lo {
            lo = c;
        }
        if c > hi {
            hi = c;
        }
        k = k + 1;
    }
    assert(pts@.take(pts@.len() as int) == pts@);
    (lo, hi)
}

/// Every point lies between the smallest and the largest coordinate.
pub proof fn lemma_axis_bounds(s: Seq<Vec3>, a: int, i: int)
    requires
        0 <= i < s.len(),
    ensures
        axis_min(s, a) <= axis(s[i], a) <= axis_max(s, a),
    decreases s.len(),
{
    if s.len() > 1 && i < s.len() - 1 {
        lemma_axis_bounds(s.drop_last(), a, i);
        assert(s.drop_last()[i] == s[i]);
    }
}

impl Mesh {
    /// Builds a mesh from a flat position stream (three coordinates per
    /// vertex) and a flat index stream (three indices per triangle), and fits
    /// its largest bounding-box dimension to `target_pixels` fixed-point pixels.
    /// Every whole, non-empty pair of streams whose indices name vertices loads.
    /// (The bound on the index count is above what a `Vec<u32>` can hold in
    /// memory; it keeps the exact normal sums within `i128`.)
    pub fn from_streams(positions: &Vec<i32>, indices: &Vec<u32>, target_pixels: i64) -> (r: Result<Mesh, LoadError>)
        requires
            ONE <= target_pixels <= TARGET_MAX,
            indices@.len() <= 0x3000_0000_0000_0000,
        ensures
            streams_malformed(positions@, indices@) <==> r == Err::<Mesh, LoadError>(LoadError::MalformedGeometry),
            !streams_malformed(positions@, indices@) <==> r is Ok,
            r is Ok ==> {
                let m = r->Ok_0;
                &&& m.wf()
                &&& m.normals_ok()
                &&& 3 * m.positions@.len() == positions@.len()
                &&& forall|i: int| 0 <= i < m.positions@.len() ==> #[trigger] m.positions@[i] == vertex_of(positions@, i)
                &&& 3 * m.indices@.len() == indices@.len()
                &&& forall|f: int| 0 <= f < m.indices@.len() ==> #[trigger] m.indices@[f] == face_of(indices@, f)
                &&& m.scale == scale_spec(m.positions@, target_pixels as int)
            },
    {
        let np = positions.len();
        let ni = indices.len();
        if np % 3 != 0 || ni % 3 != 0 || np == 0 || ni == 0 {
            return Err(LoadError::MalformedGeometry);
        }
        let mut k: usize = 0;
        while k < ni
            invariant
                0 <= k <= ni,
                ni == indices@.len(),
                np == positions@.len(),
                forall|j: int| 0 <= j < k ==> 3 * (#[trigger] indices@[j]) < np,
            decreases ni - k,
        {
            if 3 * (indices[k] as u64) >= np as u64 {
                assert(3 * indices@[k as int] >= positions@.len());
                return Err(LoadError::MalformedGeometry);
            }
            k = k + 1;
        }
        assert(!streams_malformed(positions@, indices@));
        let nv = np / 3;
        let mut pts: Vec<Vec3> = Vec::new();
        let mut v: usize = 0;
        while v < nv
            invariant
                0 <= v <= nv,
                nv * 3 == np,
                np == positions@.len(),
                pts@.len() == v,
                forall|i: int| 0 <= i < v ==> #[trigger] pts@[i] == vertex_of(positions@, i),
                forall|i: int| 0 <= i < v ==> vec_ok(#[trigger] pts@[i]),
            decreases nv - v,
        {
            let p = Vec3 {
                x: positions[3 * v] as i64,
                y: positions[3 * v + 1] as i64,
                z: positions[3 * v + 2] as i64,
            };
            pts.push(p);
            v = v + 1;
        }
        let nf = ni / 3;
        let mut faces: Vec<[u32; 3]> = Vec::new();
        let mut f: usize = 0;
        while f < nf
            invariant
                0 <= f <= nf,
                nf * 3 == ni,
                ni == indices@.len(),
                nv * 3 == np,
                faces@.len() == f,
                forall|j: int| 0 <= j < ni ==> 3 * (#[trigger] indices@[j]) < np,
                forall|g: int| 0 <= g < f ==> #[trigger] faces@[g] == face_of(indices@, g),
                forall|g: int, j: int| 0 <= g < f && 0 <= j < 3 ==> (#[trigger] faces@[g][j]) < nv,
            decreases nf - f,
        {
            let t = [indices[3 * f], indices[3 * f + 1], indices[3 * f + 2]];
            assert(3 * indices@[3 * f as int] < np);
            assert(3 * indices@[3 * f as int + 1] < np);
            assert(3 * indices@[3 * f as int + 2] < np);
            faces.push(t);
            assert(faces@[f as int] == t);
            assert forall|g: int, j: int| 0 <= g <= f && 0 <= j < 3 implies (#[trigger] faces@[g][j]) < nv by {
                if g == f {
                    assert(faces@[g] == t);
                }
            }
            f = f + 1;
        }
        proof {
            lemma_center_ok(pts@, 0);
            lemma_center_ok(pts@, 1);
            lemma_center_ok(pts@, 2);
        }
        let (x0, x1) = axis_bounds(&pts, 0);
        let (y0, y1) = axis_bounds(&pts, 1);
        let (z0, z1) = axis_bounds(&pts, 2);
        let center = Vec3 { x: x0 + (x1 - x0) / 2, y: y0 + (y1 - y0) / 2, z: z0 + (z1 - z0) / 2 };
        let (dx, dy, dz) = (x1 - x0, y1 - y0, z1 - z0);
        let m = if dx >= dy && dx >= dz {
            dx
        } else if dy >= dz {
            dy
        } else {
            dz
        };
        let m = if m < 1 { 1 } else { m };
        assert(m == max_dim(pts@));
        proof {
            let (t, d, one) = (target_pixels as int, m as int, ONE as int);
            assert(0 < t * one / d <= t * one) by (nonlinear_arith)
                requires
                    one <= t,
                    one == 65536,
                    1 <= d <= 2 * 0x8000_0000,
            ;
            assert(t * one <= TARGET_MAX * ONE) by (nonlinear_arith)
                requires
                    t <= TARGET_MAX,
                    one == ONE,
            ;
        }
        let scale = target_pixels * ONE / m;
        let mut mesh = Mesh { positions: pts, indices: faces, center, scale, normals: Vec::new() };
        let normals = mesh.vertex_normals();
        mesh.normals = normals;
        Ok(mesh)
    }
}

/// Largest magnitude of a view-space coordinate handed to the screen mapping.
pub const VIEW_MAX: i64 = 0x10_0000_0000;

/// Largest view scale multiplier (`ONE` is 1.0).
pub const MUL_MAX: i64 = 0x10_0000;

/// The fixed-point denominator of a screen offset: `ONE` cubed.
pub open spec fn screen_unit() -> int {
    (ONE as int) * (ONE as int) * (ONE as int)
}

/// `x` saturated to the range of `i32`.
pub open spec fn saturate_i32(x: int) -> int {
    crate::fixed::clamp_spec(x, i32::MIN as int, i32::MAX as int)
}

/// `num / (2 unit)` rounded to the nearest integer, halves away from zero.
pub open spec fn round_away(num: int, unit: int) -> int {
    if num >= 0 {
        (num + unit) / (2 * unit)
    } else {
        -((unit - num) / (2 * unit))
    }
}

/// Screen column of a view-space `x`: `round(width / 2 + (x - cx) * scale * mul)`,
/// halves rounded away from zero, saturated to `i32`.
pub open spec fn screen_x(x: int, cx: int, scale: int, mul: int, width: int) -> int {
    saturate_i32(round_away(2 * (x - cx) * scale * mul + width * screen_unit(), screen_unit()))
}

/// Screen row of a view-space `y`: `round(height / 2 - (y - cy) * scale * mul)`,
/// halves rounded away from zero; rows grow downward while model `y` grows upward.
pub open spec fn screen_y(y: int, cy: int, scale: int, mul: int, height: int) -> int {
    saturate_i32(round_away(height * screen_unit() - 2 * (y - cy) * scale * mul, screen_unit()))
}

pub open spec fn view_ok(v: Vec3) -> bool {
    -VIEW_MAX <= v.x <= VIEW_MAX && -VIEW_MAX <= v.y <= VIEW_MAX && -VIEW_MAX <= v.z <= VIEW_MAX
}

/// `num / 2K` rounded half away from zero, saturated to `i32`.
fn screen_round(num: i128) -> (r: i32)
    requires
        -0x1000_0000_0000_0000_0000_0000_0000_0000 <= num <= 0x1000_0000_0000_0000_0000_0000_0000_0000,
    ensures
        r == saturate_i32(round_away(num as int, screen_unit())),
{
    let k: i128 = (ONE as i128) * (ONE as i128) * (ONE as i128);
    assert(k == screen_unit());
    let q: i128 = if num >= 0 {
        assert(0 <= ((num + k) as int) / (2 * k as int) <= num + k) by (nonlinear_arith)
            requires
                num >= 0,
                k >= 1,
        ;
        (num + k) / (2 * k)
    } else {
        assert(0 <= ((k - num) as int) / (2 * k as int) <= k - num) by (nonlinear_arith)
            requires
                num < 0,
                k >= 1,
        ;
        -((k - num) / (2 * k))
    };
    if q < i32::MIN as i128 {
        i32::MIN
    } else if q > i32::MAX as i128 {
        i32::MAX
    } else {
        q as i32
    }
}

/// Every bounding-box coordinate of a well-formed mesh lies within `COORD_MAX`.
proof fn lemma_center_ok(s: Seq<Vec3>, a: int)
    requires
        s.len() > 0,
        forall|i: int| 0 <= i < s.len() ==> vec_ok(#[trigger] s[i]),
    ensures
        coord_ok(axis_min(s, a)),
        coord_ok(axis_max(s, a)),
        coord_ok(center_spec(s, a)),
        axis_min(s, a) <= axis_max(s, a),
    decreases s.len(),
{
    if s.len() > 1 {
        let t = s.drop_last();
        assert forall|i: int| 0 <= i < t.len() implies vec_ok(#[trigger] t[i]) by {
            assert(t[i] == s[i]);
        }
        lemma_center_ok(t, a);
        assert(vec_ok(s[s.len() - 1]));
    } else {
        assert(vec_ok(s[0]));
    }
}

impl Mesh {
    /// Maps a view-space point to pixel coordinates at the mesh's own scale.
    pub fn to_screen(&self, v: Vec3, width: usize, height: usize) -> (r: (i32, i32))
        requires
            self.wf(),
            view_ok(v),
            width <= 0x7fff_ffff,
            height <= 0x7fff_ffff,
        ensures
            r.0 == screen_x(v.x as int, self.center.x as int, self.scale as int, ONE as int, width as int),
            r.1 == screen_y(v.y as int, self.center.y as int, self.scale as int, ONE as int, height as int),
    {
        self.to_screen_scaled(v, width, height, ONE)
    }

    /// Maps a view-space point to pixel coordinates, with the mesh's scale
    /// multiplied by the fixed-point factor `scale_mul`. The mapping is
    /// orthographic: depth plays no part.
    pub fn to_screen_scaled(&self, v: Vec3, width: usize, height: usize, scale_mul: i64) -> (r: (i32, i32))
        requires
            self.wf(),
            view_ok(v),
            width <= 0x7fff_ffff,
            height <= 0x7fff_ffff,
            0 <= scale_mul <= MUL_MAX,
        ensures
            r.0 == screen_x(v.x as int, self.center.x as int, self.scale as int, scale_mul as int, width as int),
            r.1 == screen_y(v.y as int, self.center.y as int, self.scale as int, scale_mul as int, height as int),
    {
        proof {
            lemma_center_ok(self.positions@, 0);
            lemma_center_ok(self.positions@, 1);
        }
        let k: i128 = (ONE as i128) * (ONE as i128) * (ONE as i128);
        let dx = (v.x as i128) - (self.center.x as i128);
        let dy = (v.y as i128) - (self.center.y as i128);
        proof {
            let (s, m) = (self.scale as int, scale_mul as int);
            assert(0 <= s * m <= 0x100_0000_0000_0000 * 0x10_0000) by (nonlinear_arith)
                requires
                    0 < s <= 0x100_0000_0000_0000,
                    0 <= m <= 0x10_0000,
            ;
            assert(-0x20_0000_0000 * 0x100_0000_0000_0000 * 0x10_0000 <= dx * (s * m) <= 0x20_0000_0000 * 0x100_0000_0000_0000 * 0x10_0000)
                by (nonlinear_arith)
                requires
                    -0x20_0000_0000 <= dx <= 0x20_0000_0000,
                    0 <= s * m <= 0x100_0000_0000_0000 * 0x10_0000,
            ;
            assert(-0x20_0000_0000 * 0x100_0000_0000_0000 * 0x10_0000 <= dy * (s * m) <= 0x20_0000_0000 * 0x100_0000_0000_0000 * 0x10_0000)
                by (nonlinear_arith)
                requires
                    -0x20_0000_0000 <= dy <= 0x20_0000_0000,
                    0 <= s * m <= 0x100_0000_0000_0000 * 0x10_0000,
            ;
            assert(2 * dx * s * m == 2 * (dx * (s * m))) by (nonlinear_arith);
            assert(2 * dy * s * m == 2 * (dy * (s * m))) by (nonlinear_arith);
            assert(0 <= width * k <= 0x8000_0000 * 0x1_0000_0000_0000) by (nonlinear_arith)
                requires
                    0 <= width <= 0x7fff_ffff,
                    k == 0x1_0000_0000_0000,
            ;
            assert(0 <= height * k <= 0x8000_0000 * 0x1_0000_0000_0000) by (nonlinear_arith)
                requires
                    0 <= height <= 0x7fff_ffff,
                    k == 0x1_0000_0000_0000,
            ;
        }
        let sm = (self.scale as i128) * (scale_mul as i128);
        let nx = 2 * (dx * sm) + (width as i128) * k;
        let ny = (height as i128) * k - 2 * (dy * sm);
        (screen_round(nx), screen_round(ny))
    }
}

/// A mesh's scale is positive whatever its extent, flat or not.
pub proof fn lemma_scale_positive(s: Seq<Vec3>, target: int)
    requires
        s.len() > 0,
        forall|i: int| 0 <= i < s.len() ==> vec_ok(#[trigger] s[i]),
        ONE <= target,
    ensures
        scale_spec(s, target) > 0,
{
    lemma_center_ok(s, 0);
    lemma_center_ok(s, 1);
    lemma_center_ok(s, 2);
    let (d, one) = (max_dim(s), ONE as int);
    assert(target * one / d > 0) by (nonlinear_arith)
        requires
            one <= target,
            one == 65536,
            1 <= d <= 2 * 0x8000_0000,
    ;
}

/// Bounds that hold of every point hold of the smallest and largest coordinate.
pub proof fn lemma_axis_range(s: Seq<Vec3>, a: int, lo: int, hi: int)
    requires
        s.len() > 0,
        forall|i: int| 0 <= i < s.len() ==> lo <= #[trigger] axis(s[i], a) <= hi,
    ensures
        lo <= axis_min(s, a) <= axis_max(s, a) <= hi,
    decreases s.len(),
{
    if s.len() > 1 {
        let t = s.drop_last();
        assert forall|i: int| 0 <= i < t.len() implies lo <= #[trigger] axis(t[i], a) <= hi by {
            assert(t[i] == s[i]);
        }
        lemma_axis_range(t, a, lo, hi);
        assert(lo <= axis(s[s.len() - 1], a) <= hi);
    } else {
        assert(lo <= axis(s[0], a) <= hi);
    }
}

/// Appending a model's streams fails: a stream whose length is not a multiple
/// of three, or an index that does not fit in `u32` once offset by the number
/// of vertices already gathered.
pub open spec fn append_fails(positions: Seq<i32>, model_positions: Seq<i32>, model_indices: Seq<u32>) -> bool {
    ||| positions.len() % 3 != 0
    ||| model_positions.len() % 3 != 0
    ||| model_indices.len() % 3 != 0
    ||| exists|k: int| 0 <= k < model_indices.len() && positions.len() / 3 + #[trigger] model_indices[k] > u32::MAX
}

/// Gathers one model of a file into shared streams: its positions are
/// appended, and its indices are appended offset by the number of vertices
/// gathered before it, so that they keep naming the model's own vertices.
pub fn append_model(
    positions: &mut Vec<i32>,
    indices: &mut Vec<u32>,
    model_positions: &Vec<i32>,
    model_indices: &Vec<u32>,
) -> (r: Result<(), LoadError>)
    ensures
        r is Err <==> append_fails(old(positions)@, model_positions@, model_indices@),
        r is Err ==> r == Err::<(), LoadError>(LoadError::MalformedGeometry) && final(positions)@ == old(positions)@
            && final(indices)@ == old(indices)@,
        r is Ok ==> final(positions)@ == old(positions)@ + model_positions@,
        r is Ok ==> final(indices)@.len() == old(indices)@.len() + model_indices@.len(),
        r is Ok ==> forall|k: int| 0 <= k < old(indices)@.len() ==> #[trigger] final(indices)@[k] == old(indices)@[k],
        r is Ok ==> forall|k: int|
            0 <= k < model_indices@.len() ==> #[trigger] final(indices)@[old(indices)@.len() + k]
                == old(positions)@.len() / 3 + model_indices@[k],
{
    let np = positions.len();
    if np % 3 != 0 || model_positions.len() % 3 != 0 || model_indices.len() % 3 != 0 {
        return Err(LoadError::MalformedGeometry);
    }
    let base = (np / 3) as u64;
    assert(base <= 0x5555_5555_5555_5555);
    let n = model_indices.len();
    let mut k: usize = 0;
    while k < n
        invariant
            0 <= k <= n,
            n == model_indices@.len(),
            base == old(positions)@.len() / 3,
            base <= 0x5555_5555_5555_5555,
            forall|j: int| 0 <= j < k ==> base + #[trigger] model_indices@[j] <= u32::MAX,
        decreases n - k,
    {
        if base + model_indices[k] as u64 > u32::MAX as u64 {
            assert(old(positions)@.len() / 3 + model_indices@[k as int] > u32::MAX);
            return Err(LoadError::MalformedGeometry);
        }
        k = k + 1;
    }
    assert(!append_fails(old(positions)@, model_positions@, model_indices@));
    let m = model_positions.len();
    let mut k: usize = 0;
    while k < m
        invariant
            0 <= k <= m,
            m == model_positions@.len(),
            positions@ == old(positions)@ + model_positions@.take(k as int),
        decreases m - k,
    {
        positions.push(model_positions[k]);
        assert(model_positions@.take(k as int + 1) == model_positions@.take(k as int).push(model_positions@[k as int]));
        k = k + 1;
    }
    assert(model_positions@.take(m as int) == model_positions@);
    let start = indices.len();
    let mut k: usize = 0;
    while k < n
        invariant
            0 <= k <= n,
            n == model_indices@.len(),
            start == old(indices)@.len(),
            base == old(positions)@.len() / 3,
            indices@.len() == start + k,
            forall|j: int| 0 <= j < n ==> base + #[trigger] model_indices@[j] <= u32::MAX,
            forall|j: int| 0 <= j < start ==> #[trigger] indices@[j] == old(indices)@[j],
            forall|j: int| 0 <= j < k ==> #[trigger] indices@[start + j] == base + model_indices@[j],
        decreases n - k,
    {
        assert(base + model_indices@[k as int] <= u32::MAX);
        indices.push((base + model_indices[k] as u64) as u32);
        k = k + 1;
    }
    Ok(())
}

/// A direction with exact integer components.
#[derive(Clone, Copy, Debug, PartialEq, Eq, Structural)]
pub struct Dir {
    pub x: i128,
    pub y: i128,
    pub z: i128,
}

/// Bound on a face normal component: coordinate differences are at most
/// `2 COORD_MAX`, each product at most `4 COORD_MAX^2`, and a component the
/// difference of two products.
pub open spec fn cross_bound() -> int {
    0x2_0000_0000_0000_0000
}

/// The face normal `(p1 - p0) x (p2 - p0)`, whose length is twice the
/// face's area: summing these weights each face by its area.
pub open spec fn face_cross(pos: Seq<Vec3>, f: [u32; 3]) -> (int, int, int) {
    let (p0, p1, p2) = (pos[f[0] as int], pos[f[1] as int], pos[f[2] as int]);
    let (ux, uy, uz) = (p1.x - p0.x, p1.y - p0.y, p1.z - p0.z);
    let (vx, vy, vz) = (p2.x - p0.x, p2.y - p0.y, p2.z - p0.z);
    (uy * vz - uz * vy, uz * vx - ux * vz, ux * vy - uy * vx)
}

pub open spec fn touches(f: [u32; 3], v: int) -> bool {
    f[0] == v || f[1] == v || f[2] == v
}

/// The area-weighted normal of vertex `v`: the sum of the face normals of
/// the faces that use it.
pub open spec fn normal_sum(pos: Seq<Vec3>, faces: Seq<[u32; 3]>, v: int) -> (int, int, int)
    decreases faces.len(),
{
    if faces.len() == 0 {
        (0, 0, 0)
    } else {
        let (a, b, c) = normal_sum(pos, faces.drop_last(), v);
        if touches(faces.last(), v) {
            let (x, y, z) = face_cross(pos, faces.last());
            (a + x, b + y, c + z)
        } else {
            (a, b, c)
        }
    }
}

pub open spec fn faces_ok(pos: Seq<Vec3>, faces: Seq<[u32; 3]>) -> bool {
    &&& forall|i: int| 0 <= i < pos.len() ==> vec_ok(#[trigger] pos[i])
    &&& forall|f: int, j: int| 0 <= f < faces.len() && 0 <= j < 3 ==> (#[trigger] faces[f][j]) < pos.len()
}

proof fn lemma_cross_bound(pos: Seq<Vec3>, f: [u32; 3])
    requires
        forall|i: int| 0 <= i < pos.len() ==> vec_ok(#[trigger] pos[i]),
        f[0] < pos.len(),
        f[1] < pos.len(),
        f[2] < pos.len(),
    ensures
        -cross_bound() <= face_cross(pos, f).0 <= cross_bound(),
        -cross_bound() <= face_cross(pos, f).1 <= cross_bound(),
        -cross_bound() <= face_cross(pos, f).2 <= cross_bound(),
{
    let (p0, p1, p2) = (pos[f[0] as int], pos[f[1] as int], pos[f[2] as int]);
    assert(vec_ok(p0) && vec_ok(p1) && vec_ok(p2));
    let (ux, uy, uz) = (p1.x - p0.x, p1.y - p0.y, p1.z - p0.z);
    let (vx, vy, vz) = (p2.x - p0.x, p2.y - p0.y, p2.z - p0.z);
    lemma_product_bound(uy, vz);
    lemma_product_bound(uz, vy);
    lemma_product_bound(uz, vx);
    lemma_product_bound(ux, vz);
    lemma_product_bound(ux, vy);
    lemma_product_bound(uy, vx);
}

proof fn lemma_product_bound(a: int, b: int)
    requires
        -0x1_0000_0000 <= a <= 0x1_0000_0000,
        -0x1_0000_0000 <= b <= 0x1_0000_0000,
    ensures
        -0x1_0000_0000_0000_0000 <= a * b <= 0x1_0000_0000_0000_0000,
{
    assert(-0x1_0000_0000_0000_0000 <= a * b <= 0x1_0000_0000_0000_0000) by (nonlinear_arith)
        requires
            -0x1_0000_0000 <= a <= 0x1_0000_0000,
            -0x1_0000_0000 <= b <= 0x1_0000_0000,
    ;
}

/// Each component of a vertex's normal sum is at most the face count times
/// the bound of one face normal.
proof fn lemma_normal_sum_bound(pos: Seq<Vec3>, faces: Seq<[u32; 3]>, v: int)
    requires
        faces_ok(pos, faces),
    ensures
        -faces.len() * cross_bound() <= normal_sum(pos, faces, v).0 <= faces.len() * cross_bound(),
        -faces.len() * cross_bound() <= normal_sum(pos, faces, v).1 <= faces.len() * cross_bound(),
        -faces.len() * cross_bound() <= normal_sum(pos, faces, v).2 <= faces.len() * cross_bound(),
    decreases faces.len(),
{
    if faces.len() > 0 {
        let t = faces.drop_last();
        assert forall|f: int, j: int| 0 <= f < t.len() && 0 <= j < 3 implies (#[trigger] t[f][j]) < pos.len() by {
            assert(t[f] == faces[f]);
        }
        lemma_normal_sum_bound(pos, t, v);
        let l = faces.last();
        assert(l[0] < pos.len() && l[1] < pos.len() && l[2] < pos.len()) by {
            assert(faces[faces.len() - 1][0] < pos.len());
            assert(faces[faces.len() - 1][1] < pos.len());
            assert(faces[faces.len() - 1][2] < pos.len());
        }
        lemma_cross_bound(pos, l);
        assert(t.len() * cross_bound() + cross_bound() == faces.len() * cross_bound()) by (nonlinear_arith)
            requires
                t.len() + 1 == faces.len(),
        ;
    }
}

fn sub3(a: Vec3, b: Vec3) -> (r: (i128, i128, i128))
    requires
        vec_ok(a),
        vec_ok(b),
    ensures
        r.0 == a.x - b.x,
        r.1 == a.y - b.y,
        r.2 == a.z - b.z,
        -0x1_0000_0000 <= r.0 <= 0x1_0000_0000,
        -0x1_0000_0000 <= r.1 <= 0x1_0000_0000,
        -0x1_0000_0000 <= r.2 <= 0x1_0000_0000,
{
    ((a.x as i128) - (b.x as i128), (a.y as i128) - (b.y as i128), (a.z as i128) - (b.z as i128))
}

fn add_dir(acc: &mut Vec<Dir>, i: usize, c: (i128, i128, i128))
    requires
        i < old(acc)@.len(),
        -0x4000_0000_0000_0000_0000_0000_0000_0000 <= old(acc)@[i as int].x + c.0 <= 0x4000_0000_0000_0000_0000_0000_0000_0000,
        -0x4000_0000_0000_0000_0000_0000_0000_0000 <= old(acc)@[i as int].y + c.1 <= 0x4000_0000_0000_0000_0000_0000_0000_0000,
        -0x4000_0000_0000_0000_0000_0000_0000_0000 <= old(acc)@[i as int].z + c.2 <= 0x4000_0000_0000_0000_0000_0000_0000_0000,
    ensures
        final(acc)@ == old(acc)@.update(
            i as int,
            Dir { x: (old(acc)@[i as int].x + c.0) as i128, y: (old(acc)@[i as int].y + c.1) as i128, z: (old(acc)@[i as int].z + c.2) as i128 },
        ),
{
    let d = acc[i];
    acc[i] = Dir { x: d.x + c.0, y: d.y + c.1, z: d.z + c.2 };
}

pub open spec fn dir_is(d: Dir, t: (int, int, int)) -> bool {
    d.x == t.0 && d.y == t.1 && d.z == t.2
}

impl Mesh {
    /// The stored normals are the area-weighted sums of the face normals.
    pub open spec fn normals_ok(&self) -> bool {
        &&& self.normals@.len() == self.positions@.len()
        &&& forall|v: int|
            0 <= v < self.normals@.len() ==> dir_is(#[trigger] self.normals@[v], normal_sum(self.positions@, self.indices@, v))
    }

    /// Smooth vertex normals: for each vertex, the sum of the normals of the
    /// faces that use it, each weighted by the face's area. The result is an
    /// exact direction; scaling it to unit length is left to the consumer.
    pub fn vertex_normals(&self) -> (r: Vec<Dir>)
        requires
            self.wf(),
            self.indices@.len() <= 0x1000_0000_0000_0000,
        ensures
            r@.len() == self.positions@.len(),
            forall|v: int| 0 <= v < r@.len() ==> dir_is(#[trigger] r@[v], normal_sum(self.positions@, self.indices@, v)),
    {
        let n = self.positions.len();
        let ghost pos = self.positions@;
        let ghost faces = self.indices@;
        let mut acc: Vec<Dir> = Vec::new();
        let mut v: usize = 0;
        while v < n
            invariant
                0 <= v <= n,
                n == pos.len(),
                acc@.len() == v,
                forall|j: int| 0 <= j < v ==> #[trigger] acc@[j] == (Dir { x: 0, y: 0, z: 0 }),
            decreases n - v,
        {
            acc.push(Dir { x: 0, y: 0, z: 0 });
            v = v + 1;
        }
        assert(faces.take(0).len() == 0);
        let nf = self.indices.len();
        let mut f: usize = 0;
        while f < nf
            invariant
                0 <= f <= nf,
                nf == faces.len(),
                nf <= 0x1000_0000_0000_0000,
                pos == self.positions@,
                faces == self.indices@,
                self.wf(),
                n == pos.len(),
                acc@.len() == n,
                forall|j: int| 0 <= j < n ==> dir_is(#[trigger] acc@[j], normal_sum(pos, faces.take(f as int), j)),
            decreases nf - f,
        {
            let t = self.indices[f];
            let (i0, i1, i2) = (t[0] as usize, t[1] as usize, t[2] as usize);
            assert(t[0] < n && t[1] < n && t[2] < n) by {
                assert(faces[f as int][0] < n);
                assert(faces[f as int][1] < n);
                assert(faces[f as int][2] < n);
            }
            let p0 = self.positions[i0];
            let p1 = self.positions[i1];
            let p2 = self.positions[i2];
            assert(vec_ok(p0) && vec_ok(p1) && vec_ok(p2));
            let (ux, uy, uz) = sub3(p1, p0);
            let (vx, vy, vz) = sub3(p2, p0);
            proof {
                lemma_product_bound(uy as int, vz as int);
                lemma_product_bound(uz as int, vy as int);
                lemma_product_bound(uz as int, vx as int);
                lemma_product_bound(ux as int, vz as int);
                lemma_product_bound(ux as int, vy as int);
                lemma_product_bound(uy as int, vx as int);
            }
            let c = (uy * vz - uz * vy, uz * vx - ux * vz, ux * vy - uy * vx);
            let ghost prefix = faces.take(f as int);
            let ghost next = faces.take(f as int + 1);
            proof {
                assert(next.drop_last() == prefix);
                assert(next.last() == t);
                assert(c.0 == face_cross(pos, t).0 && c.1 == face_cross(pos, t).1 && c.2 == face_cross(pos, t).2);
                assert(faces_ok(pos, prefix)) by {
                    assert forall|g: int, j: int| 0 <= g < prefix.len() && 0 <= j < 3 implies (#[trigger] prefix[g][j]) < pos.len() by {
                        assert(prefix[g] == faces[g]);
                    }
                }
                assert forall|j: int| #![trigger normal_sum(pos, prefix, j)] 0 <= j < n implies {
                    let s = normal_sum(pos, prefix, j);
                    &&& -0x4000_0000_0000_0000_0000_0000_0000_0000 <= s.0 + c.0 <= 0x4000_0000_0000_0000_0000_0000_0000_0000
                    &&& -0x4000_0000_0000_0000_0000_0000_0000_0000 <= s.1 + c.1 <= 0x4000_0000_0000_0000_0000_0000_0000_0000
                    &&& -0x4000_0000_0000_0000_0000_0000_0000_0000 <= s.2 + c.2 <= 0x4000_0000_0000_0000_0000_0000_0000_0000
                } by {
                    lemma_normal_sum_bound(pos, prefix, j);
                    assert(prefix.len() * cross_bound() <= 0x1000_0000_0000_0000 * cross_bound()) by (nonlinear_arith)
                        requires
                            prefix.len() <= 0x1000_0000_0000_0000,
                            cross_bound() > 0,
                    ;
                }
            }
            let ghost a0 = acc@;
            add_dir(&mut acc, i0, c);
            if i1 != i0 {
                assert(acc@[i1 as int] == a0[i1 as int]);
                add_dir(&mut acc, i1, c);
            }
            if i2 != i0 && i2 != i1 {
                assert(acc@[i2 as int] == a0[i2 as int]);
                add_dir(&mut acc, i2, c);
            }
            proof {
                assert forall|j: int| 0 <= j < n implies dir_is(#[trigger] acc@[j], normal_sum(pos, next, j)) by {
                    assert(dir_is(a0[j], normal_sum(pos, prefix, j)));
                }
            }
            f = f + 1;
        }
        assert(faces.take(nf as int) == faces);
        acc
    }
}

} // verus!
