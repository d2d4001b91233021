//! Touch-bar screensaver decisions: when the desktop saver runs, which
//! effect comes next, and the decorative random numbers.
//!
//! The particle effects themselves draw with cairo in the daemon.
use vstd::prelude::*;
use crate::text::{str_eq, to_chars};

verus! {

/// Effects in rotation order; live mode starts with the first.
pub open spec fn effect_names() -> Seq<Seq<char>> {
    seq!["assemble"@, "decrypt"@, "rain"@, "beams"@, "blackhole"@]
}

pub const N_EFFECTS: usize = 5;

/// Name of effect `i` (indexes wrap around).
pub fn effect_name(i: usize) -> (r: &'static str)
    ensures
        r@ == effect_names()[(i % N_EFFECTS) as int],
{
    let k = i % N_EFFECTS;
    if k == 0 {
        "assemble"
    } else if k == 1 {
        "decrypt"
    } else if k == 2 {
        "rain"
    } else if k == 3 {
        "beams"
    } else {
        "blackhole"
    }
}

/// Position of a named effect in the rotation.
pub fn effect_index(name: &str) -> (r: Option<usize>)
    ensures
        match r {
            Some(i) => i < N_EFFECTS && effect_names()[i as int] == name@ && forall|j: int|
                0 <= j < i ==> effect_names()[j] != name@,
            None => !effect_names().contains(name@),
        },
{
    let mut i: usize = 0;
    while i < N_EFFECTS
        invariant
            i <= N_EFFECTS,
            forall|j: int| 0 <= j < i ==> effect_names()[j] != name@,
        decreases N_EFFECTS - i,
    {
        if str_eq(name, effect_name(i)) {
            return Some(i);
        }
        i += 1;
    }
    None
}

/// The effect after `idx`, given a random draw `r < N_EFFECTS - 1`.
pub open spec fn advanced(idx: int, r: int) -> int {
    (idx + 1 + r) % (N_EFFECTS as int)
}

/// Next effect index: a random one other than the current.
pub fn advance_index(idx: usize, r: usize) -> (k: usize)
    requires
        idx < N_EFFECTS,
        r < N_EFFECTS - 1,
    ensures
        k == advanced(idx as int, r as int),
        k < N_EFFECTS,
        k != idx,
{
    (idx + 1 + r) % N_EFFECTS
}

/// The rotation never shows the same effect twice in a row.
pub proof fn law_no_repeat(idx: int, r: int)
    requires
        0 <= idx < N_EFFECTS,
        0 <= r < N_EFFECTS - 1,
    ensures
        0 <= advanced(idx, r) < N_EFFECTS,
        advanced(idx, r) != idx,
{
}

/// One step of the xorshift generator (shifts 13, 7, 17).
pub open spec fn xorshift(x: u64) -> u64 {
    let a = x ^ (x << 13u64);
    let b = a ^ (a >> 7u64);
    b ^ (b << 17u64)
}

/// Tiny xorshift RNG for decorative randomness.
pub struct Rng(u64);

impl View for Rng {
    type V = u64;

    closed spec fn view(&self) -> u64 {
        self.0
    }
}

impl Rng {
    /// A generator with a fixed seed (the low bit forced on, never zero).
    pub fn fixed(s: u64) -> (r: Rng)
        ensures
            r@ == (s | 1),
            r@ != 0,
    {
        let v = s | 1;
        assert(v != 0) by (bit_vector)
            requires
                v == s | 1,
        ;
        Rng(v)
    }

    /// A generator seeded from the clock and the process: seconds and
    /// nanoseconds of the monotonic clock and the process id, mixed by
    /// two odd multipliers (wrapping) and xor; the low bit forced on.
    pub fn seeded(sec: u64, nsec: u64, pid: u64) -> (r: Rng)
        ensures
            r@ == ((vstd::wrapping::u64_specs::wrapping_mul(sec, 0x9e3779b97f4a7c15) ^ nsec
                ^ vstd::wrapping::u64_specs::wrapping_mul(pid, 0xbf58476d1ce4e5b9)) | 1),
    {
        let s = sec.wrapping_mul(0x9e3779b97f4a7c15) ^ nsec ^ pid.wrapping_mul(0xbf58476d1ce4e5b9);
        Rng(s | 1)
    }

    /// Next value; it is also the new state.
    pub fn next(&mut self) -> (r: u64)
        ensures
            r == xorshift(old(self)@),
            final(self)@ == r,
    {
        let mut x = self.0;
        x ^= x << 13u64;
        x ^= x >> 7u64;
        x ^= x << 17u64;
        self.0 = x;
        x
    }
}

/// A nonzero state stays nonzero: the generator never gets stuck at 0.
pub proof fn law_xorshift_nonzero(x: u64)
    requires
        x != 0,
    ensures
        xorshift(x) != 0,
{
    let a = x ^ (x << 13u64);
    let b = a ^ (a >> 7u64);
    let c = b ^ (b << 17u64);
    assert(x != 0 ==> a != 0) by (bit_vector)
        requires
            a == x ^ (x << 13u64),
    ;
    assert(a != 0 ==> b != 0) by (bit_vector)
        requires
            b == a ^ (a >> 7u64),
    ;
    assert(b != 0 ==> c != 0) by (bit_vector)
        requires
            c == b ^ (b << 17u64),
    ;
}

// ---------------------------------------------------------------------------
// detecting the desktop screensaver
// ---------------------------------------------------------------------------

/// The low byte of each character (the needles are ASCII).
pub open spec fn ascii(s: Seq<char>) -> Seq<u8> {
    s.map_values(|c: char| c as u8)
}

fn ascii_bytes(s: &str) -> (r: Vec<u8>)
    ensures
        r@ == ascii(s@),
{
    let v = to_chars(s);
    let mut r: Vec<u8> = Vec::new();
    let mut i: usize = 0;
    while i < v.len()
        invariant
            i <= v.len(),
            r@ == ascii(v@.subrange(0, i as int)),
        decreases v.len() - i,
    {
        r.push(v[i] as u8);
        i += 1;
        assert(r@ =~= ascii(v@.subrange(0, i as int)));
    }
    assert(v@.subrange(0, v.len() as int) =~= v@);
    r
}

/// `needle` is one whole NUL-separated field of `cmd` starting at `i`.
pub open spec fn field_at(cmd: Seq<u8>, needle: Seq<u8>, i: int) -> bool {
    &&& 0 <= i && i + needle.len() <= cmd.len()
    &&& cmd.subrange(i, i + needle.len()) == needle
    &&& (i == 0 || cmd[i - 1] == 0)
    &&& (i + needle.len() == cmd.len() || cmd[i + needle.len()] == 0)
}

/// `needle` is one of the arguments of a `/proc/<pid>/cmdline`.
pub open spec fn has_field(cmd: Seq<u8>, needle: Seq<u8>) -> bool {
    exists|i: int| field_at(cmd, needle, i)
}

fn field_present(cmd: &[u8], needle: &Vec<u8>) -> (r: bool)
    ensures
        r == has_field(cmd@, needle@),
{
    let n = needle.len();
    if n > cmd.len() {
        return false;
    }
    let last = cmd.len() - n;
    let mut i: usize = 0;
    loop
        invariant
            n == needle.len(),
            last == cmd.len() - n,
            i <= last,
            forall|j: int| 0 <= j < i ==> !field_at(cmd@, needle@, j),
        decreases last - i,
    {
        let starts = i == 0 || cmd[i - 1] == 0;
        let ends = i + n == cmd.len() || cmd[i + n] == 0;
        if starts && ends {
            let mut k: usize = 0;
            let mut same = true;
            while k < n
                invariant
                    n == needle.len(),
                    i + n <= cmd.len(),
                    k <= n,
                    same == (forall|m: int| 0 <= m < k ==> cmd@[i + m] == needle@[m]),
                decreases n - k,
            {
                if cmd[i + k] != needle[k] {
                    same = false;
                }
                k += 1;
            }
            if same {
                assert(cmd@.subrange(i as int, i + n) =~= needle@);
                assert(field_at(cmd@, needle@, i as int));
                return true;
            } else {
                assert(!field_at(cmd@, needle@, i as int)) by {
                    if cmd@.subrange(i as int, i + n) == needle@ {
                        assert forall|m: int| 0 <= m < n implies cmd@[i + m] == needle@[m] by {
                            assert(cmd@.subrange(i as int, i + n)[m] == cmd@[i + m]);
                        }
                    }
                }
            }
        }
        if i == last {
            assert forall|j: int| !field_at(cmd@, needle@, j) by {
                if 0 <= j < i {
                } else if j >= i {
                }
            }
            return false;
        }
        i += 1;
    }
}

/// Whole-argument needles that mark the Omarchy screensaver's terminal.
pub open spec fn is_saver_argv(cmd: Seq<u8>) -> bool {
    has_field(cmd, ascii("--class=org.omarchy.screensaver"@)) || has_field(
        cmd,
        ascii("--app-id=org.omarchy.screensaver"@),
    ) || has_field(cmd, ascii("org.omarchy.screensaver"@))
}

/// Does a process command line (NUL-separated arguments) belong to the
/// desktop screensaver? Only whole arguments count, so shells and greps
/// that merely mention the class inside a longer argument do not.
pub fn is_saver_cmdline(cmd: &[u8]) -> (r: bool)
    ensures
        r == is_saver_argv(cmd@),
{
    let a = ascii_bytes("--class=org.omarchy.screensaver");
    let b = ascii_bytes("--app-id=org.omarchy.screensaver");
    let c = ascii_bytes("org.omarchy.screensaver");
    field_present(cmd, &a) || field_present(cmd, &b) || field_present(cmd, &c)
}

/// The word of saver cycle `cycle`: OMARCHY on even cycles, the clock on odd.
pub fn next_word(cycle: usize, clock: &str) -> (r: String)
    ensures
        r@ == (if cycle % 2 == 0 {
            "OMARCHY"@
        } else {
            clock@
        }),
{
    if cycle % 2 == 0 {
        crate::text::owned("OMARCHY")
    } else {
        crate::text::owned(clock)
    }
}

/// Width and height of the word mask, in pixels.
pub const MASK_W: usize = 2008;
pub const MASK_H: usize = 60;

/// The lit pixels `(x, y)` of rows `0..y` of an A8 mask (alpha above
/// 110), row by row, left to right.
pub open spec fn lit_rows(mask: Seq<u8>, stride: int, y: int) -> Seq<(usize, usize)>
    decreases y,
{
    if y <= 0 {
        seq![]
    } else {
        lit_rows(mask, stride, y - 1) + lit_row(mask, stride, y - 1, MASK_W as int)
    }
}

/// The lit pixels of row `y` among columns `0..x`.
pub open spec fn lit_row(mask: Seq<u8>, stride: int, y: int, x: int) -> Seq<(usize, usize)>
    decreases x,
{
    if x <= 0 {
        seq![]
    } else if mask[y * stride + x - 1] > 110 {
        lit_row(mask, stride, y, x - 1).push(((x - 1) as usize, y as usize))
    } else {
        lit_row(mask, stride, y, x - 1)
    }
}

/// The pixels of the rendered word: where the mask's alpha exceeds 110.
pub fn lit_pixels(mask: &[u8], stride: usize) -> (r: Vec<(usize, usize)>)
    requires
        stride >= MASK_W,
        (MASK_H - 1) * stride + MASK_W <= mask.len(),
    ensures
        r@ == lit_rows(mask@, stride as int, MASK_H as int),
{
    let mut r: Vec<(usize, usize)> = Vec::new();
    let mut y: usize = 0;
    while y < MASK_H
        invariant
            y <= MASK_H,
            stride >= MASK_W,
            (MASK_H - 1) * stride + MASK_W <= mask.len(),
            r@ == lit_rows(mask@, stride as int, y as int),
        decreases MASK_H - y,
    {
        let ghost before = r@;
        assert(y * stride <= (MASK_H - 1) * stride) by (nonlinear_arith)
            requires
                y < MASK_H,
        ;
        let row = y * stride;
        let mut x: usize = 0;
        while x < MASK_W
            invariant
                x <= MASK_W,
                y < MASK_H,
                row == y * stride,
                row + MASK_W <= mask.len(),
                r@ == before + lit_row(mask@, stride as int, y as int, x as int),
            decreases MASK_W - x,
        {
            if mask[row + x] > 110 {
                r.push((x, y));
            }
            x += 1;
        }
        y += 1;
    }
    r
}

/// Evenly spread picks among `len` lit pixels for `n` particles:
/// particle `i` takes pixel `(i * len / n) % len`.
pub fn spread_picks(len: usize, n: usize) -> (r: Vec<usize>)
    requires
        len > 0,
        n > 0,
        n * len <= usize::MAX,
    ensures
        r.len() == n,
        forall|i: int| 0 <= i < n ==> #[trigger] r@[i] == ((i * len) / (n as int)) % (len as int),
        forall|i: int| 0 <= i < n ==> #[trigger] r@[i] < len,
{
    let mut r: Vec<usize> = Vec::new();
    let mut i: usize = 0;
    while i < n
        invariant
            i <= n,
            len > 0,
            n > 0,
            n * len <= usize::MAX,
            r.len() == i,
            forall|j: int| 0 <= j < i ==> #[trigger] r@[j] == ((j * len) / (n as int)) % (len as int),
            forall|j: int| 0 <= j < i ==> #[trigger] r@[j] < len,
        decreases n - i,
    {
        assert(i * len <= n * len) by (nonlinear_arith)
            requires
                i < n,
        ;
        let k = (i * len / n) % len;
        r.push(k);
        i += 1;
    }
    r
}

/// Every particle target is one of the word's lit pixels.
pub proof fn law_picks_in_range(len: int, n: int, i: int)
    requires
        len > 0,
        n > 0,
        0 <= i < n,
    ensures
        0 <= ((i * len) / n) % len < len,
{
    assert(i * len >= 0) by (nonlinear_arith)
        requires
            i >= 0,
            len > 0,
    ;
}

} // verus!
