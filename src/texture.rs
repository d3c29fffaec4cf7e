//! An RGBA flow texture sampled with wrap-around addressing.
use vstd::prelude::*;
use crate::fixed::ONE;

verus! {

/// An immutable RGBA byte grid, row-major, four bytes per texel.
pub struct FlowmapTexture {
    pub width: usize,
    pub height: usize,
    pub data: Vec<u8>,
}

/// Column (or row) of the texel that a texture coordinate falls in: the
/// fractional part of `u` scaled by `size`.
pub open spec fn wrap_index(u: int, size: int) -> int {
    (u % (ONE as int)) * size / (ONE as int)
}

/// Byte offset of the red channel of the texel at `(u, v)`.
pub open spec fn texel_offset(tex: FlowmapTexture, u: int, v: int) -> int {
    4 * (wrap_index(v, tex.height as int) * tex.width + wrap_index(u, tex.width as int))
}

/// The flow component encoded by a channel byte, in units of 1/255 of [-1, 1].
pub open spec fn flow_of(byte: u8) -> int {
    2 * byte - 255
}

impl FlowmapTexture {
    /// Dimensions are positive and the data holds exactly four bytes per texel.
    pub open spec fn wf(&self) -> bool {
        &&& self.width > 0
        &&& self.height > 0
        &&& self.data@.len() == 4 * self.width * self.height
    }

    /// The `(r, g, b)` bytes of the texel at fixed-point coordinates `(u, v)`,
    /// after taking the fractional part of each.
    pub open spec fn sample_spec(&self, u: int, v: int) -> (u8, u8, u8) {
        let o = texel_offset(*self, u, v);
        (self.data@[o], self.data@[o + 1], self.data@[o + 2])
    }

    /// Reads the texel under `(u, v)`, wrapping both coordinates into `[0, 1)`.
    pub fn sample(&self, u: i64, v: i64) -> (r: (u8, u8, u8))
        requires
            self.wf(),
        ensures
            r == self.sample_spec(u as int, v as int),
    {
        let n = self.data.len();
        let x = wrap(u, self.width);
        let y = wrap(v, self.height);
        proof {
            assert(y * self.width + x < self.width * self.height) by (nonlinear_arith)
                requires
                    x < self.width,
                    y < self.height,
            ;
            assert(4 * self.width * self.height == 4 * (self.width * self.height)) by (nonlinear_arith);
            assert(n == 4 * self.width * self.height);
        }
        let idx = (y * self.width + x) * 4;
        (self.data[idx], self.data[idx + 1], self.data[idx + 2])
    }

    /// The flow vector stored in the red and green channels at `(u, v)`,
    /// mapped from a byte in `[0, 255]` to `[-255, 255]` (that is, [-1, 1]).
    pub fn sample_flow(&self, u: i64, v: i64) -> (r: (i32, i32))
        requires
            self.wf(),
        ensures
            r.0 == flow_of(self.sample_spec(u as int, v as int).0),
            r.1 == flow_of(self.sample_spec(u as int, v as int).1),
    {
        let (r, g, _b) = self.sample(u, v);
        (2 * (r as i32) - 255, 2 * (g as i32) - 255)
    }
}

/// The texel index along one axis of size `size` for coordinate `u`.
fn wrap(u: i64, size: usize) -> (r: usize)
    requires
        0 < size,
    ensures
        r == wrap_index(u as int, size as int),
        r < size,
{
    let f: i64 = match u.checked_rem_euclid(ONE) {
        Some(f) => f,
        None => 0,
    };
    assert(0 <= f < ONE);
    let s = size as i128;
    proof {
        let fi = f as int;
        let si = s as int;
        let one = ONE as int;
        assert(0 <= fi * si < one * si) by (nonlinear_arith)
            requires
                0 <= fi < one,
                si > 0,
        ;
        assert(one * si <= 0x1_0000 * 0x1_0000_0000_0000_0000) by (nonlinear_arith)
            requires
                one == 0x1_0000,
                0 < si <= 0xffff_ffff_ffff_ffff,
        ;
        assert((fi * si) / one < si) by (nonlinear_arith)
            requires
                fi * si < one * si,
                0 <= fi * si,
                one > 0,
        ;
    }
    (((f as i128) * s) / (ONE as i128)) as usize
}

/// Sampling is periodic with period one in each coordinate.
pub proof fn lemma_sample_periodic(tex: FlowmapTexture, u: int, v: int)
    requires
        tex.wf(),
    ensures
        tex.sample_spec(u, v) == tex.sample_spec(u + ONE, v),
        tex.sample_spec(u, v) == tex.sample_spec(u, v + ONE),
{
    let one = ONE as int;
    assert((u + one) % one == u % one) by (nonlinear_arith)
        requires
            one == 65536,
    ;
    assert((v + one) % one == v % one) by (nonlinear_arith)
        requires
            one == 65536,
    ;
}

} // verus!
