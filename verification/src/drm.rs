//! DRM mode-setting request numbers for the dumb-buffer backend.
//!
//! The backend itself (open, modeset, blit) talks to the kernel and lives
//! in the daemon; these are the `_IOWR('d', nr, size)` numbers it uses,
//! the connector it settles on, and the row copy that puts a frame into the
//! mapped dumb buffer.
use vstd::prelude::*;
use vstd::arithmetic::div_mod::lemma_fundamental_div_mod_converse;

verus! {

pub const W: i32 = 64;
pub const H: i32 = 2008;
pub const DRM_FORMAT_XRGB8888: u32 = 0x3432_5258;

/// `_IOWR('d', nr, size)`: direction bits 3, size, type `'d'`, number.
pub open spec fn iowr_spec(nr: u32, size: u64) -> u64 {
    (3u64 << 30u64) | (size << 16u64) | (0x64u64 << 8u64) | (nr as u64)
}

pub fn iowr(nr: u32, size: usize) -> (r: u64)
    ensures
        r == iowr_spec(nr, size as u64),
        nr < 256 && size < 0x4000 ==> r == 0xC000_0000 + size * 0x1_0000 + 0x6400 + nr,
{
    let s = size as u64;
    let n = nr as u64;
    let r = (3u64 << 30u64) | (s << 16u64) | (0x64u64 << 8u64) | n;
    assert(n < 256 && s < 0x4000 ==> r == 0xC000_0000 + s * 0x1_0000 + 0x6400 + n)
        by (bit_vector)
        requires
            r == (3u64 << 30u64) | (s << 16u64) | (0x64u64 << 8u64) | n,
    ;
    r
}

/// DRM_IOCTL_MODE_GETRESOURCES.
pub fn ioctl_getresources() -> (r: u64)
    ensures
        r == 0xC040_64A0,
{
    iowr(0xA0, 64)
}

/// DRM_IOCTL_MODE_SETCRTC.
pub fn ioctl_setcrtc() -> (r: u64)
    ensures
        r == 0xC068_64A2,
{
    iowr(0xA2, 104)
}

/// DRM_IOCTL_MODE_GETCONNECTOR.
pub fn ioctl_getconnector() -> (r: u64)
    ensures
        r == 0xC050_64A7,
{
    iowr(0xA7, 80)
}

/// DRM_IOCTL_MODE_ADDFB2.
pub fn ioctl_addfb2() -> (r: u64)
    ensures
        r == 0xC064_64B8,
{
    iowr(0xB8, 100)
}

/// DRM_IOCTL_MODE_DIRTYFB.
pub fn ioctl_dirtyfb() -> (r: u64)
    ensures
        r == 0xC018_64B1,
{
    iowr(0xB1, 24)
}

/// DRM_IOCTL_MODE_CREATE_DUMB.
pub fn ioctl_create_dumb() -> (r: u64)
    ensures
        r == 0xC020_64B2,
{
    iowr(0xB2, 32)
}

/// DRM_IOCTL_MODE_MAP_DUMB.
pub fn ioctl_map_dumb() -> (r: u64)
    ensures
        r == 0xC010_64B3,
{
    iowr(0xB3, 16)
}

/// A connector is driven when it reports itself connected (state 1) and
/// offers at least one mode; the first such connector is used.
pub fn usable_connector(connection: u32, count_modes: u32) -> (r: bool)
    ensures
        r == (connection == 1 && count_modes > 0),
{
    connection == 1 && count_modes > 0
}

/// The smaller of two lengths.
pub open spec fn narrower(a: int, b: int) -> int {
    if a < b { a } else { b }
}

/// Whether byte `i` of a buffer whose rows lie `pitch` bytes apart falls
/// in the first `w` bytes of one of its first `rows` rows, or in the first
/// `j` bytes of row `rows`.
pub open spec fn in_rows(i: int, pitch: int, w: int, rows: int, j: int) -> bool {
    pitch > 0 && 0 <= i && ((i / pitch < rows && i % pitch < w) || (i / pitch == rows && i % pitch
        < j))
}

/// The buffer `dst` after the first `w` bytes of each of the first `rows`
/// rows of `src` (rows `stride` apart) were copied into it (rows `pitch`
/// apart).
pub open spec fn rows_copied(
    dst: Seq<u8>,
    src: Seq<u8>,
    pitch: int,
    stride: int,
    w: int,
    rows: int,
) -> Seq<u8> {
    Seq::new(
        dst.len(),
        |i: int|
            if in_rows(i, pitch, w, rows, 0) {
                src[(i / pitch) * stride + i % pitch]
            } else {
                dst[i]
            },
    )
}

proof fn lemma_row_index(pitch: int, y: int, j: int)
    requires
        0 <= j < pitch,
        0 <= y,
    ensures
        (y * pitch + j) / pitch == y,
        (y * pitch + j) % pitch == j,
{
    lemma_fundamental_div_mod_converse(y * pitch + j, pitch, y, j);
}

proof fn lemma_row_bound(a: int, b: int, c: int, d: int)
    by (nonlinear_arith)
    requires
        0 <= a <= b,
        0 <= c,
        0 <= d,
    ensures
        a * c + d <= b * c + d,
{
}

/// Copies a frame of `rows` rows, `stride` bytes apart in `src`, into the
/// mapped buffer `dst`, whose rows lie `pitch` bytes apart: the first
/// `min(stride, pitch)` bytes of each row, so that a pitch that differs
/// from the stride neither overruns a row nor shifts the next one. The
/// rest of `dst` is left as it was.
pub fn copy_rows(dst: &mut [u8], pitch: usize, src: &[u8], stride: usize, rows: usize)
    requires
        rows > 0 ==> (rows - 1) * stride + narrower(stride as int, pitch as int) <= src@.len(),
        rows > 0 ==> (rows - 1) * pitch + narrower(stride as int, pitch as int) <= old(dst)@.len(),
    ensures
        final(dst)@ == rows_copied(
            old(dst)@,
            src@,
            pitch as int,
            stride as int,
            narrower(stride as int, pitch as int),
            rows as int,
        ),
{
    let w: usize = if stride < pitch { stride } else { pitch };
    let ghost start = dst@;
    let src_len = src.len();
    let dst_len = dst.len();
    let mut y: usize = 0;
    while y < rows
        invariant
            y <= rows,
            src_len == src@.len(),
            dst_len == start.len(),
            w == narrower(stride as int, pitch as int),
            rows > 0 ==> (rows - 1) * stride + w <= src@.len(),
            rows > 0 ==> (rows - 1) * pitch + w <= start.len(),
            dst@.len() == start.len(),
            forall|i: int|
                0 <= i < dst@.len() ==> #[trigger] dst@[i] == (if in_rows(
                    i,
                    pitch as int,
                    w as int,
                    y as int,
                    0,
                ) {
                    src@[(i / pitch as int) * stride + i % pitch as int]
                } else {
                    start[i]
                }),
        decreases rows - y,
    {
        proof {
            lemma_row_bound(y as int, (rows - 1) as int, stride as int, w as int);
            lemma_row_bound(y as int, (rows - 1) as int, pitch as int, w as int);
        }
        let so: usize = y * stride;
        let dof: usize = y * pitch;
        let mut j: usize = 0;
        while j < w
            invariant
                y < rows,
                j <= w,
                w == narrower(stride as int, pitch as int),
                so == y * stride,
                dof == y * pitch,
                so + w <= src@.len(),
                dof + w <= start.len(),
                src_len == src@.len(),
                dst_len == start.len(),
                dst@.len() == start.len(),
                forall|i: int|
                    0 <= i < dst@.len() ==> #[trigger] dst@[i] == (if in_rows(
                        i,
                        pitch as int,
                        w as int,
                        y as int,
                        j as int,
                    ) {
                        src@[(i / pitch as int) * stride + i % pitch as int]
                    } else {
                        start[i]
                    }),
            decreases w - j,
        {
            let ghost at = (dof + j) as int;
            proof {
                lemma_row_index(pitch as int, y as int, j as int);
            }
            dst[dof + j] = src[so + j];
            assert forall|i: int| 0 <= i < dst@.len() implies #[trigger] dst@[i] == (if in_rows(
                i,
                pitch as int,
                w as int,
                y as int,
                j + 1,
            ) {
                src@[(i / pitch as int) * stride + i % pitch as int]
            } else {
                start[i]
            }) by {
                if i != at {
                    if pitch > 0 && i / pitch as int == y as int && i % pitch as int == j as int {
                        vstd::arithmetic::div_mod::lemma_fundamental_div_mod(i, pitch as int);
                        vstd::arithmetic::mul::lemma_mul_is_commutative(pitch as int, y as int);
                        assert(i == at);
                    }
                }
            }
            j = j + 1;
        }
        assert forall|i: int| 0 <= i < dst@.len() implies #[trigger] dst@[i] == (if in_rows(
            i,
            pitch as int,
            w as int,
            (y + 1) as int,
            0,
        ) {
            src@[(i / pitch as int) * stride + i % pitch as int]
        } else {
            start[i]
        }) by {
            if pitch > 0 && 0 <= i {
                assert(0 <= i % (pitch as int) < (pitch as int));
            }
        }
        y = y + 1;
    }
    assert(dst@ =~= rows_copied(start, src@, pitch as int, stride as int, w as int, rows as int));
}


} // verus!
