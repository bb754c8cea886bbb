//! Textures: a 2D pixel grid with wrap-around UV sampling. Coordinates
//! are exact rationals; a lookup scales them by the image size,
//! truncates, and wraps modulo the dimensions (never clamps).

use vstd::prelude::*;
use crate::rat::Rat;
use crate::scene::TexCoord;
use crate::spectrum::Spectrum;

verus! {

/// Largest numerator or denominator magnitude a texture coordinate may
/// carry.
pub const TEX_LIMIT: i128 = 0x10_0000_0000_0000_0000_0000_0000;

/// Integer part of `num * w / den`, truncated toward zero (the
/// rounding a float-to-integer cast would apply).
pub open spec fn scaled_trunc(num: int, w: int, den: int) -> int {
    if num * w >= 0 {
        (num * w) / den
    } else {
        -((-(num * w)) / den)
    }
}

/// Texel picked by one wrapped coordinate: truncate, then wrap into
/// `[0, w)` (mathematical modulus, so negative coordinates wrap around).
pub open spec fn wrap_index(c: Rat, w: int) -> int {
    scaled_trunc(c.num as int, w, c.den as int) % w
}

pub struct Texture<T> {
    width: u32,
    height: u32,
    data: Vec<T>,
}

impl<T: Copy> Texture<T> {
    pub closed spec fn width_spec(self) -> int {
        self.width as int
    }

    pub closed spec fn height_spec(self) -> int {
        self.height as int
    }

    pub closed spec fn data_view(self) -> Seq<T> {
        self.data@
    }

    pub open spec fn wf(self) -> bool {
        &&& self.width_spec() > 0
        &&& self.height_spec() > 0
        &&& self.data_view().len() == self.width_spec() * self.height_spec()
        &&& self.width_spec() <= 0xffff
        &&& self.height_spec() <= 0xffff
    }

    /// A constant-filled image.
    pub fn new(width: u32, height: u32, fill_col: &T) -> (r: Texture<T>)
        requires
            0 < width <= 0xffff,
            0 < height <= 0xffff,
        ensures
            r.wf(),
            r.width_spec() == width,
            r.height_spec() == height,
            forall|i: int| 0 <= i < r.data_view().len() ==> r.data_view()[i] == *fill_col,
    {
        proof {
            crate::vec3::lemma_mul_bound(width as int, height as int, 0xffff, 0xffff);
        }
        let total: usize = (width as usize) * (height as usize);
        let mut data: Vec<T> = Vec::new();
        let mut i: usize = 0;
        while i < total
            invariant
                i <= total,
                data@.len() == i,
                forall|j: int| 0 <= j < i ==> data@[j] == *fill_col,
            decreases total - i,
        {
            data.push(*fill_col);
            i = i + 1;
        }
        Texture { width, height, data }
    }

    pub fn size(&self) -> (r: (u32, u32))
        ensures
            r.0 == self.width_spec(),
            r.1 == self.height_spec(),
    {
        (self.width, self.height)
    }

    pub fn get(&self, x: u32, y: u32) -> (r: T)
        requires
            self.wf(),
            x < self.width_spec(),
            y < self.height_spec(),
        ensures
            r == self.data_view()[y * self.width_spec() + x],
    {
        proof {
            crate::vec3::lemma_mul_bound(y as int, self.width as int, 0xffff, 0xffff);
            assert((y as int) * (self.width as int) + (x as int) < (self.height as int) * (self.width as int))
                by (nonlinear_arith)
                requires
                    (y as int) < (self.height as int),
                    (x as int) < (self.width as int),
                    0 < (self.width as int);
            assert((self.height as int) * (self.width as int) == (self.width as int) * (self.height as int))
                by (nonlinear_arith);
        }
        self.data[(y as usize) * (self.width as usize) + (x as usize)]
    }

    pub fn set(&mut self, x: u32, y: u32, val: T)
        requires
            old(self).wf(),
            x < old(self).width_spec(),
            y < old(self).height_spec(),
        ensures
            final(self).wf(),
            final(self).width_spec() == old(self).width_spec(),
            final(self).height_spec() == old(self).height_spec(),
            final(self).data_view() == old(self).data_view().update(
                y * old(self).width_spec() + x,
                val,
            ),
    {
        proof {
            crate::vec3::lemma_mul_bound(y as int, self.width as int, 0xffff, 0xffff);
            assert((y as int) * (self.width as int) + (x as int) < (self.height as int) * (self.width as int))
                by (nonlinear_arith)
                requires
                    (y as int) < (self.height as int),
                    (x as int) < (self.width as int),
                    0 < (self.width as int);
            assert((self.height as int) * (self.width as int) == (self.width as int) * (self.height as int))
                by (nonlinear_arith);
        }
        let idx: usize = (y as usize) * (self.width as usize) + (x as usize);
        self.data[idx] = val;
    }

    /// One wrapped texel coordinate: exact truncation and wrap of
    /// `c * w` into `[0, w)`.
    fn wrap_coordinate(c: Rat, w: u32) -> (r: u32)
        requires
            0 < c.den <= TEX_LIMIT,
            -TEX_LIMIT <= c.num <= TEX_LIMIT,
            0 < w <= 0xffff,
        ensures
            r as int == wrap_index(c, w as int),
    {
        proof {
            crate::vec3::lemma_mul_bound(c.num as int, w as int, TEX_LIMIT as int, 0xffff);
        }
        let scaled: i128 = c.num * (w as i128);
        let q: i128 = if scaled >= 0 {
            proof {
                vstd::arithmetic::div_mod::lemma_div_nonincreasing(scaled as int, c.den as int);
                vstd::arithmetic::div_mod::lemma_div_pos_is_pos(scaled as int, c.den as int);
            }
            let qq: u128 = (scaled as u128) / (c.den as u128);
            qq as i128
        } else {
            proof {
                vstd::arithmetic::div_mod::lemma_div_nonincreasing((-scaled) as int, c.den as int);
                vstd::arithmetic::div_mod::lemma_div_pos_is_pos((-scaled) as int, c.den as int);
            }
            let qq: u128 = ((-scaled) as u128) / (c.den as u128);
            -(qq as i128)
        };
        let m: i128 = if q >= 0 {
            proof {
                vstd::arithmetic::div_mod::lemma_mod_bound(q as int, w as int);
            }
            q % (w as i128)
        } else {
            proof {
                vstd::arithmetic::div_mod::lemma_mod_bound((-q) as int, w as int);
            }
            let neg_m: i128 = (-q) % (w as i128);
            let ghost qd = (-q) as int / (w as int);
            proof {
                vstd::arithmetic::div_mod::lemma_fundamental_div_mod((-q) as int, w as int);
                // write q as a quotient and a remainder in [0, w) and
                // read its mathematical modulus off that decomposition
                if neg_m == 0 {
                    assert(q as int == (-qd) * (w as int) + 0) by (nonlinear_arith)
                        requires (-q) as int == (w as int) * qd + 0;
                    vstd::arithmetic::div_mod::lemma_fundamental_div_mod_converse(
                        q as int, w as int, -qd, 0);
                } else {
                    assert(q as int == (-qd - 1) * (w as int) + ((w as int) - neg_m))
                        by (nonlinear_arith)
                        requires (-q) as int == (w as int) * qd + (neg_m as int);
                    vstd::arithmetic::div_mod::lemma_fundamental_div_mod_converse(
                        q as int, w as int, -qd - 1, (w as int) - neg_m);
                }
            }
            if neg_m == 0 {
                0
            } else {
                (w as i128) - neg_m
            }
        };
        proof {
            vstd::arithmetic::div_mod::lemma_mod_bound(q as int, w as int);
        }
        m as u32
    }

    /// Wrap-around sample: the texel under `uv` after scaling by the
    /// image size, truncating, and wrapping modulo each dimension.
    pub fn sample(&self, uv: &TexCoord) -> (r: T)
        requires
            self.wf(),
            uv.wf(),
        ensures
            r == self.data_view()[
                wrap_index(uv.v, self.height_spec()) * self.width_spec()
                    + wrap_index(uv.u, self.width_spec())
            ],
            0 <= wrap_index(uv.v, self.height_spec()) * self.width_spec()
                + wrap_index(uv.u, self.width_spec()) < self.data_view().len(),
    {
        let x = Self::wrap_coordinate(uv.u, self.width);
        let y = Self::wrap_coordinate(uv.v, self.height);
        proof {
            vstd::arithmetic::div_mod::lemma_mod_bound(
                scaled_trunc(uv.u.num as int, self.width as int, uv.u.den as int),
                self.width as int,
            );
            vstd::arithmetic::div_mod::lemma_mod_bound(
                scaled_trunc(uv.v.num as int, self.height as int, uv.v.den as int),
                self.height as int,
            );
            crate::vec3::lemma_mul_bound(y as int, self.width as int, 0xffff, 0xffff);
            assert((y as int) * (self.width as int) + (x as int) < (self.height as int) * (self.width as int))
                by (nonlinear_arith)
                requires
                    (y as int) < (self.height as int),
                    (x as int) < (self.width as int),
                    0 <= (y as int),
                    0 <= (x as int),
                    0 < (self.width as int);
            assert((self.height as int) * (self.width as int) == (self.width as int) * (self.height as int))
                by (nonlinear_arith);
            assert(0 <= (y as int) * (self.width as int) + (x as int)) by (nonlinear_arith)
                requires 0 <= (y as int) && 0 <= (x as int) && 0 < (self.width as int);
        }
        self.get(x, y)
    }
}

impl Texture<Spectrum> {
    /// Decode a tightly packed 8-bit RGB pixel buffer. Returns the
    /// image exactly when the buffer length matches three bytes per
    /// pixel, and reports the mismatch otherwise.
    pub fn from_raw_data(width: u32, height: u32, data: &Vec<u8>) -> (r: Result<Texture<Spectrum>, ()>)
        requires
            0 < width <= 0xffff,
            0 < height <= 0xffff,
        ensures
            r is Ok <==> data@.len() == 3 * ((width as int) * (height as int)),
            r matches Ok(t) ==> {
                &&& t.wf()
                &&& t.width_spec() == width
                &&& t.height_spec() == height
                &&& forall|i: int| 0 <= i < t.data_view().len()
                    ==> #[trigger] t.data_view()[i] == (Spectrum {
                        r: data@[3 * i] as i128,
                        g: data@[3 * i + 1] as i128,
                        b: data@[3 * i + 2] as i128,
                    })
            },
    {
        proof {
            crate::vec3::lemma_mul_bound(width as int, height as int, 0xffff, 0xffff);
        }
        let pixel_count: usize = (width as usize) * (height as usize);
        if data.len() % 3 != 0 || data.len() / 3 != pixel_count {
            proof {
                vstd::arithmetic::div_mod::lemma_fundamental_div_mod(data@.len() as int, 3);
            }
            return Err(());
        }
        proof {
            vstd::arithmetic::div_mod::lemma_fundamental_div_mod(data@.len() as int, 3);
        }
        let mut buffer: Vec<Spectrum> = Vec::new();
        let mut i: usize = 0;
        while i < pixel_count
            invariant
                i <= pixel_count,
                data@.len() == 3 * pixel_count,
                data@.len() <= usize::MAX,
                buffer@.len() == i,
                forall|j: int| 0 <= j < i ==> #[trigger] buffer@[j] == (Spectrum {
                    r: data@[3 * j] as i128,
                    g: data@[3 * j + 1] as i128,
                    b: data@[3 * j + 2] as i128,
                }),
            decreases pixel_count - i,
        {
            let px = Spectrum {
                r: data[3 * i] as i128,
                g: data[3 * i + 1] as i128,
                b: data[3 * i + 2] as i128,
            };
            buffer.push(px);
            i = i + 1;
        }
        Ok(Texture { width, height, data: buffer })
    }
}

impl Texture<Spectrum> {
    /// Exec check that the image is well-formed and every texel's
    /// channels are non-negative and bounded by `limit`.
    pub fn gamut_check(&self, limit: i128) -> (r: bool)
        requires
            limit >= 0,
        ensures
            r == (self.wf() && forall|i: int| 0 <= i < self.data_view().len() ==> {
                &&& crate::spectrum::in_gamut(#[trigger] self.data_view()[i], limit as int)
                &&& self.data_view()[i].r >= 0
                &&& self.data_view()[i].g >= 0
                &&& self.data_view()[i].b >= 0
            }),
    {
        if self.width == 0 || self.height == 0 || self.width > 0xffff || self.height > 0xffff {
            return false;
        }
        proof {
            crate::vec3::lemma_mul_bound(self.width as int, self.height as int, 0xffff, 0xffff);
        }
        if self.data.len() != (self.width as usize) * (self.height as usize) {
            return false;
        }
        let mut i: usize = 0;
        let n = self.data.len();
        while i < n
            invariant
                i <= n,
                n == self.data@.len(),
                forall|j: int| 0 <= j < i ==> {
                    &&& crate::spectrum::in_gamut(#[trigger] self.data@[j], limit as int)
                    &&& self.data@[j].r >= 0
                    &&& self.data@[j].g >= 0
                    &&& self.data@[j].b >= 0
                },
            decreases n - i,
        {
            let px = self.data[i];
            if px.r < 0 || px.r > limit || px.g < 0 || px.g > limit || px.b < 0 || px.b > limit {
                return false;
            }
            i = i + 1;
        }
        true
    }
}

/// The image buffer an integrator fills: one radiance value per pixel.
pub type RenderTarget = Texture<Spectrum>;

} // verus!
