//! Writing pixels: single pixels with wrap-around, thick lines, and the
//! conversion of the framebuffer to bytes.

use vstd::arithmetic::div_mod::{lemma_fundamental_div_mod, lemma_fundamental_div_mod_converse};
use vstd::prelude::*;
use crate::screen::Screen;

verus! {

/// The position on an axis of length `m` that `v` wraps around to: the one
/// position in `0..m` that differs from `v` by a multiple of `m`.
pub open spec fn wrapped(v: int, m: int) -> int {
    v % m
}

/// Wraps a coordinate around an axis of length `m`.
pub fn wrap_i32(v: i32, m: i32) -> (pos: usize)
    requires
        m > 0,
    ensures
        pos == wrapped(v as int, m as int),
        pos < m,
{
    if 0 <= v && v < m {
        proof {
            lemma_fundamental_div_mod_converse(v as int, m as int, 0, v as int);
        }
        return v as usize;
    }
    if v < 0 && v >= -m {
        proof {
            lemma_fundamental_div_mod_converse(v as int, m as int, -1, v + m);
        }
        return (v + m) as usize;
    }
    if v >= m && v - m < m {
        proof {
            lemma_fundamental_div_mod_converse(v as int, m as int, 1, v - m);
        }
        return (v - m) as usize;
    }
    wrap_i64(v as i64, m)
}

/// Wraps a coordinate around an axis of length `m`.
fn wrap_i64(v: i64, m: i32) -> (pos: usize)
    requires
        m > 0,
        i64::MIN < v,
    ensures
        pos == wrapped(v as int, m as int),
        pos < m,
{
    let d: i64 = m as i64;
    if v >= 0 {
        return (v % d) as usize;
    }
    let a: i64 = -v;
    let k: i64 = a % d;
    let ghost q = a as int / d as int;
    proof {
        lemma_fundamental_div_mod(a as int, d as int);
    }
    if k == 0 {
        proof {
            assert(v as int == (-q) * d + 0) by (nonlinear_arith)
                requires
                    a == d * q + k,
                    k == 0,
                    v == -a,
            ;
            lemma_fundamental_div_mod_converse(v as int, m as int, -q, 0);
        }
        0
    } else {
        proof {
            assert(v as int == (-q - 1) * d + (d - k)) by (nonlinear_arith)
                requires
                    a == d * q + k,
                    v == -a,
            ;
            lemma_fundamental_div_mod_converse(v as int, m as int, -q - 1, d - k);
        }
        (d - k) as usize
    }
}

/// The index in the buffer of the pixel in column `x` of row `y`.
pub open spec fn pixel_index(screen: Screen, x: int, y: int) -> int {
    wrapped(x, screen.spec_width() as int) + screen.spec_width() * wrapped(
        y,
        screen.spec_height() as int,
    )
}

/// Gives the pixel in column `x` of row `y` the colour. Coordinates outside
/// the screen wrap around to the opposite edge.
pub fn set_pixel(screen: &mut Screen, x: i32, y: i32, color: u32)
    requires
        old(screen).wf(),
        0 < old(screen).spec_width() <= i32::MAX,
        0 < old(screen).spec_height() <= i32::MAX,
    ensures
        final(screen).wf(),
        final(screen).spec_width() == old(screen).spec_width(),
        final(screen).spec_height() == old(screen).spec_height(),
        0 <= pixel_index(*old(screen), x as int, y as int) < old(screen).pixels().len(),
        final(screen).pixels() == old(screen).pixels().update(
            pixel_index(*old(screen), x as int, y as int),
            color,
        ),
{
    let w = screen.width() as i32;
    let h = screen.height() as i32;

    let x = wrap_i32(x, w);
    let y = wrap_i32(y, h);

    assert(0 <= screen.spec_width() * y && x + screen.spec_width() * y < screen.spec_width()
        * screen.spec_height()) by (nonlinear_arith)
        requires
            0 <= x < screen.spec_width(),
            0 <= y < screen.spec_height(),
    ;
    let pos = x + screen.width() * y;
    screen.put(pos, color);
}

/// [`set_pixel`] for coordinates of any size.
fn put_wrapped(screen: &mut Screen, x: i64, y: i64, color: u32)
    requires
        old(screen).wf(),
        0 < old(screen).spec_width() <= i32::MAX,
        0 < old(screen).spec_height() <= i32::MAX,
        i64::MIN < x,
        i64::MIN < y,
    ensures
        final(screen).wf(),
        final(screen).spec_width() == old(screen).spec_width(),
        final(screen).spec_height() == old(screen).spec_height(),
        0 <= pixel_index(*old(screen), x as int, y as int) < old(screen).pixels().len(),
        final(screen).pixels() == old(screen).pixels().update(
            pixel_index(*old(screen), x as int, y as int),
            color,
        ),
{
    let w = screen.width() as i32;
    let h = screen.height() as i32;

    let x = wrap_i64(x, w);
    let y = wrap_i64(y, h);

    assert(0 <= screen.spec_width() * y && x + screen.spec_width() * y < screen.spec_width()
        * screen.spec_height()) by (nonlinear_arith)
        requires
            0 <= x < screen.spec_width(),
            0 <= y < screen.spec_height(),
    ;
    let pos = x + screen.width() * y;
    screen.put(pos, color);
}

/// A thick line as it is drawn: `len + 1` stamps along the major axis, each
/// a run of pixels across it.
pub struct Line {
    /// The major axis is the vertical one.
    pub steep: bool,
    /// Where the line starts on the major axis.
    pub major0: int,
    /// Where the line starts on the minor axis.
    pub minor0: int,
    /// How far the line goes along the major axis.
    pub len: int,
    /// How far the line goes along the minor axis, without sign.
    pub rise: int,
    /// The direction on the minor axis: 1 or -1.
    pub dir: int,
    /// How far a stamp reaches to the low side of the line.
    pub neg: int,
    /// How far a stamp reaches to the high side of the line.
    pub pos: int,
}

/// The distance between two coordinates.
pub open spec fn span(a: int, b: int) -> int {
    if a <= b {
        b - a
    } else {
        a - b
    }
}

/// The line from `(x0, y0)` to `(x1, y1)` of the given thickness.
///
/// The major axis is the one along which the line is longer, the vertical
/// one if both are equal, and the line is walked along it in rising order.
/// A thickness below 1 counts as 1. A stamp of `t` pixels reaches
/// `(t - 1) / 2` to the low side and `t / 2` to the high side.
pub open spec fn line_of(x0: int, y0: int, x1: int, y1: int, thickness: int) -> Line {
    let t = if thickness < 1 {
        1
    } else {
        thickness
    };
    let steep = !(span(y0, y1) < span(x0, x1));
    let (a0, b0, a1, b1) = if steep {
        (y0, x0, y1, x1)
    } else {
        (x0, y0, x1, y1)
    };
    let (major0, minor0, minor1) = if a0 > a1 {
        (a1, b1, b0)
    } else {
        (a0, b0, b1)
    };
    Line {
        steep,
        major0,
        minor0,
        len: span(a0, a1),
        rise: span(b0, b1),
        dir: if minor1 < minor0 {
            -1
        } else {
            1
        },
        neg: (t - 1) / 2,
        pos: t / 2,
    }
}

impl Line {
    /// How far the line has moved along the minor axis after `k` steps
    /// along the major axis: `k * rise / len`, rounded to the nearest whole
    /// number, a half rounded down.
    pub open spec fn risen(self, k: int) -> int {
        if self.len == 0 {
            0
        } else {
            (2 * self.rise * k + self.len - 1) / (2 * self.len)
        }
    }

    /// The pixel of stamp `k` at offset `o` across the line, as column and
    /// row.
    pub open spec fn point(self, k: int, o: int) -> (int, int) {
        let major = self.major0 + k;
        let minor = self.minor0 + self.dir * self.risen(k) + o;
        if self.steep {
            (minor, major)
        } else {
            (major, minor)
        }
    }

    /// The index in the screen's buffer of the pixel of stamp `k` at offset
    /// `o`.
    pub open spec fn index(self, screen: Screen, k: int, o: int) -> int {
        pixel_index(screen, self.point(k, o).0, self.point(k, o).1)
    }

    /// The pixel at `idx` belongs to one of the stamps before stamp `k`, or
    /// to stamp `k` at an offset below `o`.
    pub open spec fn covers_before(self, screen: Screen, idx: int, k: int, o: int) -> bool {
        exists|i: int, j: int|
            0 <= i <= self.len && -self.neg <= j <= self.pos && (i < k || (i == k && j < o))
                && #[trigger] self.index(screen, i, j) == idx
    }

    /// The pixel at `idx` belongs to the line.
    pub open spec fn covers(self, screen: Screen, idx: int) -> bool {
        exists|i: int, j: int|
            0 <= i <= self.len && -self.neg <= j <= self.pos && #[trigger] self.index(screen, i, j)
                == idx
    }
}

/// Draws a line of the given thickness from `(x0, y0)` to `(x1, y1)`: every
/// pixel of the line gets the colour, and no other pixel changes. Pixels
/// outside the screen wrap around to the opposite edge.
pub fn draw_line_thick(
    screen: &mut Screen,
    x0: i32,
    y0: i32,
    x1: i32,
    y1: i32,
    thickness: i32,
    color: u32,
)
    requires
        old(screen).wf(),
        0 < old(screen).spec_width() <= i32::MAX,
        0 < old(screen).spec_height() <= i32::MAX,
    ensures
        final(screen).wf(),
        final(screen).spec_width() == old(screen).spec_width(),
        final(screen).spec_height() == old(screen).spec_height(),
        forall|idx: int|
            0 <= idx < old(screen).pixels().len() ==> #[trigger] final(screen).pixels()[idx] == (
            if line_of(x0 as int, y0 as int, x1 as int, y1 as int, thickness as int).covers(
                *old(screen),
                idx,
            ) {
                color
            } else {
                old(screen).pixels()[idx]
            }),
{
    let t: i64 = if thickness < 1 {
        1
    } else {
        thickness as i64
    };
    let neg: i64 = (t - 1) / 2;
    let pos: i64 = t / 2;
    let dx: i64 = if x0 <= x1 {
        x1 as i64 - x0 as i64
    } else {
        x0 as i64 - x1 as i64
    };
    let dy: i64 = if y0 <= y1 {
        y1 as i64 - y0 as i64
    } else {
        y0 as i64 - y1 as i64
    };
    if dy < dx {
        if x0 > x1 {
            plot_line(screen, false, x1 as i64, y1 as i64, dx, dy, y0 < y1, neg, pos, color);
        } else {
            plot_line(screen, false, x0 as i64, y0 as i64, dx, dy, y1 < y0, neg, pos, color);
        }
    } else {
        if y0 > y1 {
            plot_line(screen, true, y1 as i64, x1 as i64, dy, dx, x0 < x1, neg, pos, color);
        } else {
            plot_line(screen, true, y0 as i64, x0 as i64, dy, dx, x1 < x0, neg, pos, color);
        }
    }
}

/// Walks a line along its major axis and stamps it into the screen.
fn plot_line(
    screen: &mut Screen,
    steep: bool,
    major0: i64,
    minor0: i64,
    len: i64,
    rise: i64,
    falling: bool,
    neg: i64,
    pos: i64,
    color: u32,
)
    requires
        old(screen).wf(),
        0 < old(screen).spec_width() <= i32::MAX,
        0 < old(screen).spec_height() <= i32::MAX,
        i32::MIN <= major0 <= i32::MAX,
        i32::MIN <= minor0 <= i32::MAX,
        0 <= rise <= len <= u32::MAX,
        0 <= neg <= i32::MAX,
        0 <= pos <= i32::MAX,
    ensures
        final(screen).wf(),
        final(screen).spec_width() == old(screen).spec_width(),
        final(screen).spec_height() == old(screen).spec_height(),
        forall|idx: int|
            0 <= idx < old(screen).pixels().len() ==> #[trigger] final(screen).pixels()[idx] == (
            if (Line {
                steep,
                major0: major0 as int,
                minor0: minor0 as int,
                len: len as int,
                rise: rise as int,
                dir: if falling {
                    -1
                } else {
                    1
                },
                neg: neg as int,
                pos: pos as int,
            }).covers(*old(screen), idx) {
                color
            } else {
                old(screen).pixels()[idx]
            }),
{
    let ghost line = Line {
        steep,
        major0: major0 as int,
        minor0: minor0 as int,
        len: len as int,
        rise: rise as int,
        dir: if falling {
            -1
        } else {
            1
        },
        neg: neg as int,
        pos: pos as int,
    };
    let ghost before = *screen;
    let mut d: i64 = 2 * rise - len;
    let mut n: i64 = 0;
    let mut k: i64 = 0;
    let ghost mut rk: int = 0;
    let ghost mut ln: int = 0;
    proof {
        if len > 0 {
            lemma_risen(rise as int, len as int, 0, 0, 0, 0);
        }
    }
    while k <= len
        invariant
            screen.wf(),
            screen.spec_width() == before.spec_width(),
            screen.spec_height() == before.spec_height(),
            screen.pixels().len() == before.pixels().len(),
            0 < before.spec_width() <= i32::MAX,
            0 < before.spec_height() <= i32::MAX,
            i32::MIN <= major0 <= i32::MAX,
            i32::MIN <= minor0 <= i32::MAX,
            0 <= rise <= len <= u32::MAX,
            0 <= neg <= i32::MAX,
            0 <= pos <= i32::MAX,
            line == (Line {
                steep,
                major0: major0 as int,
                minor0: minor0 as int,
                len: len as int,
                rise: rise as int,
                dir: if falling {
                    -1
                } else {
                    1
                },
                neg: neg as int,
                pos: pos as int,
            }),
            0 <= k <= len + 1,
            0 <= n <= k,
            rk == rise * k,
            ln == len * n,
            d == 2 * rk - 2 * ln + 2 * rise - len,
            len > 0 ==> 1 - len <= 2 * rk - 2 * ln <= len,
            len == 0 ==> n == 0,
            k <= len ==> n == line.risen(k as int),
            forall|idx: int|
                0 <= idx < before.pixels().len() ==> #[trigger] screen.pixels()[idx] == (
                if line.covers_before(before, idx, k as int, -neg as int) {
                    color
                } else {
                    before.pixels()[idx]
                }),
        decreases len + 1 - k,
    {
        let center: i64 = if falling {
            minor0 - n
        } else {
            minor0 + n
        };
        let major: i64 = major0 + k;
        let mut o: i64 = -neg;
        while o <= pos
            invariant
                screen.wf(),
                screen.spec_width() == before.spec_width(),
                screen.spec_height() == before.spec_height(),
                screen.pixels().len() == before.pixels().len(),
                0 < before.spec_width() <= i32::MAX,
                0 < before.spec_height() <= i32::MAX,
                0 <= neg <= i32::MAX,
                0 <= pos <= i32::MAX,
                0 <= k <= len <= u32::MAX,
                -neg <= o <= pos + 1,
                -0x2_0000_0000 <= center <= 0x2_0000_0000,
                -0x2_0000_0000 <= major <= 0x2_0000_0000,
                line.len == len,
                line.neg == neg,
                line.pos == pos,
                line.steep == steep,
                forall|j: int| #[trigger]
                    line.point(k as int, j) == (if steep {
                        (center + j, major as int)
                    } else {
                        (major as int, center + j)
                    }),
                forall|idx: int|
                    0 <= idx < before.pixels().len() ==> #[trigger] screen.pixels()[idx] == (
                    if line.covers_before(before, idx, k as int, o as int) {
                        color
                    } else {
                        before.pixels()[idx]
                    }),
            decreases pos + 1 - o,
        {
            let ghost so_far = *screen;
            if steep {
                put_wrapped(screen, center + o, major, color);
            } else {
                put_wrapped(screen, major, center + o, color);
            }
            proof {
                let here = line.index(before, k as int, o as int);
                assert(here == pixel_index(so_far, line.point(k as int, o as int).0, line.point(k as int, o as int).1));
                assert forall|idx: int| 0 <= idx < before.pixels().len() implies (
                #[trigger] screen.pixels()[idx]) == (if line.covers_before(
                    before,
                    idx,
                    k as int,
                    o + 1,
                ) {
                    color
                } else {
                    before.pixels()[idx]
                }) by {
                    if line.covers_before(before, idx, k as int, o + 1) {
                        let (i, j) = choose|i: int, j: int|
                            0 <= i <= line.len && -line.neg <= j <= line.pos && (i < k || (i == k
                                && j < o + 1)) && #[trigger] line.index(before, i, j) == idx;
                        if i == k && j == o {
                        } else {
                            assert(line.index(before, i, j) == idx);
                            assert(line.covers_before(before, idx, k as int, o as int));
                        }
                    } else {
                        if line.covers_before(before, idx, k as int, o as int) {
                            let (i, j) = choose|i: int, j: int|
                                0 <= i <= line.len && -line.neg <= j <= line.pos && (i < k || (i
                                    == k && j < o)) && #[trigger] line.index(before, i, j) == idx;
                            assert(line.index(before, i, j) == idx);
                            assert(false);
                        }
                        if idx == here {
                            assert(line.index(before, k as int, o as int) == idx);
                            assert(false);
                        }
                    }
                }
            }
            o += 1;
        }
        proof {
            assert forall|idx: int| 0 <= idx < before.pixels().len() implies (
            #[trigger] screen.pixels()[idx]) == (if line.covers_before(
                before,
                idx,
                k + 1,
                -neg as int,
            ) {
                color
            } else {
                before.pixels()[idx]
            }) by {
                if line.covers_before(before, idx, k + 1, -neg as int) {
                    let (i, j) = choose|i: int, j: int|
                        0 <= i <= line.len && -line.neg <= j <= line.pos && (i < k + 1 || (i == k
                            + 1 && j < -neg)) && #[trigger] line.index(before, i, j) == idx;
                    assert(line.index(before, i, j) == idx);
                    assert(line.covers_before(before, idx, k as int, pos + 1));
                } else {
                    if line.covers_before(before, idx, k as int, pos + 1) {
                        let (i, j) = choose|i: int, j: int|
                            0 <= i <= line.len && -line.neg <= j <= line.pos && (i < k || (i == k
                                && j < pos + 1)) && #[trigger] line.index(before, i, j) == idx;
                        assert(line.index(before, i, j) == idx);
                        assert(false);
                    }
                }
            }
        }
        if d > 0 {
            n += 1;
            d += 2 * (rise - len);
            proof {
                ln = ln + len;
            }
        } else {
            d += 2 * rise;
        }
        k += 1;
        proof {
            rk = rk + rise;
            assert(rk == rise * k) by (nonlinear_arith)
                requires
                    rk - rise == rise * (k - 1),
            ;
            assert(ln == len * n) by (nonlinear_arith)
                requires
                    ln == len * n || ln - len == len * (n - 1),
                    ln == len * n || ln == (ln - len) + len,
            ;
            if len > 0 && k <= len {
                lemma_risen(rise as int, len as int, k as int, n as int, rk, ln);
            }
        }
    }
    proof {
        assert forall|idx: int| 0 <= idx < before.pixels().len() implies (
        #[trigger] screen.pixels()[idx]) == (if line.covers(before, idx) {
            color
        } else {
            before.pixels()[idx]
        }) by {
            if line.covers(before, idx) {
                let (i, j) = choose|i: int, j: int|
                    0 <= i <= line.len && -line.neg <= j <= line.pos && #[trigger] line.index(
                        before,
                        i,
                        j,
                    ) == idx;
                assert(line.index(before, i, j) == idx);
                assert(line.covers_before(before, idx, k as int, -neg as int));
            } else {
                if line.covers_before(before, idx, k as int, -neg as int) {
                    let (i, j) = choose|i: int, j: int|
                        0 <= i <= line.len && -line.neg <= j <= line.pos && (i < k || (i == k && j
                            < -neg)) && #[trigger] line.index(before, i, j) == idx;
                    assert(line.index(before, i, j) == idx);
                    assert(false);
                }
            }
        }
    }
}

/// The error term of the line walk pins down how far the line has risen.
proof fn lemma_risen(rise: int, len: int, k: int, n: int, rk: int, ln: int)
    requires
        len > 0,
        rk == rise * k,
        ln == len * n,
        1 - len <= 2 * rk - 2 * ln <= len,
    ensures
        n == (2 * rise * k + len - 1) / (2 * len),
{
    let e = 2 * rk - 2 * ln;
    assert(2 * rise * k + len - 1 == n * (2 * len) + (e + len - 1)) by (nonlinear_arith)
        requires
            rk == rise * k,
            ln == len * n,
            e == 2 * rk - 2 * ln,
    ;
    lemma_fundamental_div_mod_converse(2 * rise * k + len - 1, 2 * len, n, e + len - 1);
}

/// The red part of a pixel: bits 16 to 23.
pub open spec fn red(p: u32) -> u8 {
    ((p >> 16) & 0xFF) as u8
}

/// The green part of a pixel: bits 8 to 15.
pub open spec fn green(p: u32) -> u8 {
    ((p >> 8) & 0xFF) as u8
}

/// The blue part of a pixel: bits 0 to 7.
pub open spec fn blue(p: u32) -> u8 {
    (p & 0xFF) as u8
}

/// The byte at position `i` of the pixels written out as red, green, blue
/// and an opaque alpha, four bytes per pixel.
pub open spec fn rgba_byte(pixels: Seq<u32>, i: int) -> u8 {
    let p = pixels[i / 4];
    if i % 4 == 0 {
        red(p)
    } else if i % 4 == 1 {
        green(p)
    } else if i % 4 == 2 {
        blue(p)
    } else {
        0xFF
    }
}

/// The number of whole pixels that are converted: as many as the source
/// holds and as the destination has room for.
pub open spec fn blit_count(dst_len: int, src_len: int) -> int {
    if dst_len / 4 < src_len {
        dst_len / 4
    } else {
        src_len
    }
}

/// Writes the pixels out as bytes, four per pixel: red, green, blue and an
/// alpha of 255. Conversion stops at the end of the shorter side; the bytes
/// of the destination that lie behind the last converted pixel stay as
/// they are.
pub fn blit_u32_to_rgba_bytes(dst_rgba: &mut [u8], src_u32: &[u32])
    ensures
        final(dst_rgba)@.len() == old(dst_rgba)@.len(),
        forall|i: int|
            0 <= i < old(dst_rgba)@.len() ==> #[trigger] final(dst_rgba)@[i] == (if i < 4
                * blit_count(old(dst_rgba)@.len() as int, src_u32@.len() as int) {
                rgba_byte(src_u32@, i)
            } else {
                old(dst_rgba)@[i]
            }),
{
    let total = dst_rgba.len();
    let room = total / 4;
    let count = if room < src_u32.len() {
        room
    } else {
        src_u32.len()
    };
    let mut k: usize = 0;
    while k < count
        invariant
            k <= count,
            count <= src_u32@.len(),
            4 * count <= dst_rgba@.len(),
            dst_rgba@.len() == old(dst_rgba)@.len(),
            dst_rgba@.len() == total,
            forall|i: int|
                0 <= i < dst_rgba@.len() ==> #[trigger] dst_rgba@[i] == (if i < 4 * k {
                    rgba_byte(src_u32@, i)
                } else {
                    old(dst_rgba)@[i]
                }),
        decreases count - k,
    {
        let p = src_u32[k];
        assert((p >> 16) & 0xFF < 256 && (p >> 8) & 0xFF < 256 && p & 0xFF < 256) by (bit_vector);
        let r = ((p >> 16) & 0xFF) as u8;
        let g = ((p >> 8) & 0xFF) as u8;
        let b = (p & 0xFF) as u8;
        dst_rgba[4 * k] = r;
        dst_rgba[4 * k + 1] = g;
        dst_rgba[4 * k + 2] = b;
        dst_rgba[4 * k + 3] = 0xFF;
        k += 1;
    }
}

} // verus!
