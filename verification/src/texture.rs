//! Texture data prepared for GPU upload: the checker test pattern and rows
//! padded to the copy alignment that the GPU requires.
use vstd::prelude::*;

verus! {

/// Alignment of bytes per row in texture copies (`wgpu::COPY_BYTES_PER_ROW_ALIGNMENT`).
#[verifier::external_body]
fn copy_row_alignment() -> (r: u32)
    ensures
        r == 256,
{
    wgpu::COPY_BYTES_PER_ROW_ALIGNMENT
}

/// Red and green channel of the checker pattern at pixel `(x, y)`: 16×16 squares
/// alternating between 220 and 40.
pub open spec fn checker_value(x: int, y: int) -> u8 {
    if ((x / 16) + (y / 16)) % 2 == 0 {
        220
    } else {
        40
    }
}

/// Byte `c` of pixel `(x, y)` of the checker texture (RGBA: value, value, 255, 255).
pub open spec fn checker_byte(x: int, y: int, c: int) -> u8 {
    if c < 2 {
        checker_value(x, y)
    } else {
        255
    }
}

/// RGBA8 pixels of a `w`×`h` checker texture, rows top to bottom.
pub fn checker_rgba8(w: u32, h: u32) -> (r: Vec<u8>)
    requires
        4 * w * h <= u32::MAX,
    ensures
        r@.len() == 4 * w * h,
        forall|x: int, y: int, c: int|
            0 <= x < w && 0 <= y < h && 0 <= c < 4 ==> #[trigger] r@[4 * (y * w + x) + c]
                == checker_byte(x, y, c),
{
    proof {
        assert(0 <= w * h <= 4 * w * h && w * h * 4 == 4 * w * h) by (nonlinear_arith)
            requires
                w >= 0,
                h >= 0,
        ;
    }
    let mut data: Vec<u8> = Vec::with_capacity((w * h * 4) as usize);
    let mut y: u32 = 0;
    while y < h
        invariant
            4 * w * h <= u32::MAX,
            y <= h,
            data@.len() == 4 * (y * w),
            forall|px: int, py: int, c: int|
                0 <= px < w && 0 <= py < y && 0 <= c < 4 ==> #[trigger] data@[4 * (py * w + px) + c]
                    == checker_byte(px, py, c),
        decreases h - y,
    {
        let mut x: u32 = 0;
        while x < w
            invariant
                4 * w * h <= u32::MAX,
                y < h,
                x <= w,
                data@.len() == 4 * (y * w + x),
                forall|px: int, py: int, c: int|
                    0 <= px < w && 0 <= py < y && 0 <= c < 4 ==> #[trigger] data@[4 * (py * w + px)
                        + c] == checker_byte(px, py, c),
                forall|px: int, c: int|
                    0 <= px < x && 0 <= c < 4 ==> #[trigger] data@[4 * (y * w + px) + c]
                        == checker_byte(px, y as int, c),
            decreases w - x,
        {
            let v: u8 = if ((x / 16) + (y / 16)) % 2 == 0 {
                220
            } else {
                40
            };
            let ghost before = data@;
            data.push(v);
            data.push(v);
            data.push(255u8);
            data.push(255u8);
            proof {
                let base = 4 * (y * w + x);
                assert forall|px: int, py: int, c: int|
                    0 <= px < w && 0 <= py < y && 0 <= c < 4 implies #[trigger] data@[4 * (py * w
                    + px) + c] == checker_byte(px, py, c) by {
                    assert(py * w + px < y * w) by (nonlinear_arith)
                        requires
                            0 <= px < w,
                            0 <= py < y,
                    ;
                    assert(data@[4 * (py * w + px) + c] == before[4 * (py * w + px) + c]);
                }
                assert forall|px: int, c: int| 0 <= px < x + 1 && 0 <= c < 4 implies #[trigger] data@[4
                    * (y * w + px) + c] == checker_byte(px, y as int, c) by {
                    if px < x {
                        assert(data@[4 * (y * w + px) + c] == before[4 * (y * w + px) + c]);
                    } else {
                        assert(4 * (y * w + px) + c == base + c);
                    }
                }
            }
            x += 1;
        }
        proof {
            assert(y * w + w == (y + 1) * w) by (nonlinear_arith);
            assert forall|px: int, py: int, c: int|
                0 <= px < w && 0 <= py < y + 1 && 0 <= c < 4 implies #[trigger] data@[4 * (py * w
                + px) + c] == checker_byte(px, py, c) by {
                if py == y {
                }
            }
            assert((y + 1) * w <= h * w) by (nonlinear_arith)
                requires
                    y < h,
                    w >= 0,
            ;
        }
        y += 1;
    }
    proof {
        assert(4 * (h * w) == 4 * w * h) by (nonlinear_arith);
    }
    data
}

/// Bytes per row of a `w`-pixel RGBA8 row rounded up to the copy alignment.
pub open spec fn padded_row_spec(w: int) -> int {
    ((4 * w + 255) / 256) * 256
}

/// Bytes per row of a `w`-pixel RGBA8 texture copy: `4 * w` rounded up to a
/// multiple of the copy alignment.
pub fn padded_row_bytes(w: u32) -> (r: u32)
    requires
        4 * w + 255 <= u32::MAX,
    ensures
        r == padded_row_spec(w as int),
        r % 256 == 0,
        4 * w <= r < 4 * w + 256,
{
    let row_bytes = 4 * w;
    let align = copy_row_alignment();
    proof {
        let t = row_bytes + 255;
        assert((t / 256) * 256 <= t && t - 256 < (t / 256) * 256) by (nonlinear_arith)
            requires
                t >= 0,
        ;
    }
    let t = row_bytes + (align - 1);
    let q = t / align;
    assert(q * 256 <= t) by (nonlinear_arith)
        requires
            q == t / 256,
            t >= 0,
    ;
    q * align
}

/// Bytes of a `w`×`h` RGBA8 image laid out for a texture copy, with the
/// bytes per row: the image itself when its rows need no padding; otherwise
/// each row at the start of a padded row, followed by zeros.
pub fn stage_rgba8_rows(w: u32, h: u32, data: &Vec<u8>) -> (r: (Vec<u8>, u32))
    requires
        4 * w + 255 <= u32::MAX,
        padded_row_spec(w as int) != 4 * w ==> padded_row_spec(w as int) * h <= u32::MAX && 4 * w
            * h <= data@.len(),
    ensures
        r.1 == padded_row_spec(w as int),
        r.1 == 4 * w ==> r.0@ == data@,
        r.1 != 4 * w ==> {
            &&& r.0@.len() == r.1 * h
            &&& forall|y: int, k: int|
                0 <= y < h && 0 <= k < r.1 ==> #[trigger] r.0@[y * r.1 + k] == (if k < 4 * w {
                    data@[y * (4 * w) + k]
                } else {
                    0u8
                })
        },
{
    let row_bytes = 4 * w;
    let padded = padded_row_bytes(w);
    if padded == row_bytes {
        let mut copy: Vec<u8> = Vec::new();
        let mut i: usize = 0;
        while i < data.len()
            invariant
                i <= data@.len(),
                copy@ == data@.subrange(0, i as int),
            decreases data@.len() - i,
        {
            copy.push(data[i]);
            i += 1;
            assert(copy@ =~= data@.subrange(0, i as int));
        }
        assert(copy@ =~= data@);
        return (copy, padded);
    }
    let total = padded * h;
    let mut staged: Vec<u8> = Vec::new();
    let mut y: u32 = 0;
    while y < h
        invariant
            padded == padded_row_spec(w as int),
            row_bytes == 4 * w,
            row_bytes < padded,
            padded as int * h <= u32::MAX,
            4 * w * h <= data@.len(),
            y <= h,
            staged@.len() == y * padded,
            forall|py: int, k: int|
                0 <= py < y && 0 <= k < padded ==> #[trigger] staged@[py * padded + k] == (if k < 4
                    * w {
                    data@[py * (4 * w) + k]
                } else {
                    0u8
                }),
        decreases h - y,
    {
        proof {
            assert(y * row_bytes + row_bytes <= h * row_bytes) by (nonlinear_arith)
                requires
                    y < h,
                    row_bytes >= 0,
            ;
            assert(4 * w * h == h * row_bytes) by (nonlinear_arith)
                requires
                    row_bytes == 4 * w,
            ;
            assert(y * padded + padded <= h * padded) by (nonlinear_arith)
                requires
                    y < h,
                    padded >= 0,
            ;
            assert(y * row_bytes <= y * padded) by (nonlinear_arith)
                requires
                    row_bytes < padded,
                    y >= 0,
            ;
        }
        let start = (y * row_bytes) as usize;
        let mut k: u32 = 0;
        while k < padded
            invariant
                padded == padded_row_spec(w as int),
                row_bytes == 4 * w,
                row_bytes < padded,
                4 * w * h <= data@.len(),
                y < h,
                start == y * row_bytes,
                start + row_bytes <= data@.len(),
                k <= padded,
                staged@.len() == y * padded + k,
                forall|py: int, kk: int|
                    0 <= py < y && 0 <= kk < padded ==> #[trigger] staged@[py * padded + kk] == (if kk
                        < 4 * w {
                        data@[py * (4 * w) + kk]
                    } else {
                        0u8
                    }),
                forall|kk: int|
                    0 <= kk < k ==> #[trigger] staged@[y * padded + kk] == (if kk < 4 * w {
                        data@[y * (4 * w) + kk]
                    } else {
                        0u8
                    }),
            decreases padded - k,
        {
            let b = if k < row_bytes {
                let kk = k as usize;
                let dl = data.len();
                assert(start + kk < dl);
                data[start + kk]
            } else {
                0u8
            };
            let ghost before = staged@;
            staged.push(b);
            proof {
                assert forall|py: int, kk: int| 0 <= py < y && 0 <= kk < padded implies #[trigger] staged@[py
                    * padded + kk] == (if kk < 4 * w {
                    data@[py * (4 * w) + kk]
                } else {
                    0u8
                }) by {
                    assert(py * padded + kk < y * padded) by (nonlinear_arith)
                        requires
                            0 <= kk < padded,
                            0 <= py < y,
                    ;
                    assert(staged@[py * padded + kk] == before[py * padded + kk]);
                }
                assert forall|kk: int| 0 <= kk < k + 1 implies #[trigger] staged@[y * padded + kk] == (
                if kk < 4 * w {
                    data@[y * (4 * w) + kk]
                } else {
                    0u8
                }) by {
                    if kk < k {
                        assert(staged@[y * padded + kk] == before[y * padded + kk]);
                    }
                }
            }
            k += 1;
        }
        proof {
            assert(y * padded + padded == (y + 1) * padded) by (nonlinear_arith);
        }
        y += 1;
    }
    proof {
        assert(staged@.len() == padded * h) by (nonlinear_arith)
            requires
                staged@.len() == y * padded,
                y == h,
        ;
    }
    let _ = total;
    (staged, padded)
}

} // verus!
