//! Hardware probing: evdev request numbers and the choice of input nodes.
//!
//! Opening device nodes and issuing ioctls happens in the daemon; here
//! are the request numbers and the rules that pick the touch strip and
//! the keyboard among the nodes found.
use vstd::prelude::*;
use crate::order::strings_view;
use crate::text::{
    all_digits, contains, digit_value, digits_val, is_digit, owned, push_str, str_eq, string_from,
    to_chars,
};

verus! {

/// `_IOR('E', nr, len)`: direction bits 2, length, type `'E'`, number.
pub open spec fn ev_ioc_spec(nr: u32, len: u64) -> u64 {
    (2u64 << 30u64) | (len << 16u64) | (0x45u64 << 8u64) | (nr as u64)
}

pub fn ev_ioc(nr: u32, len: usize) -> (r: u64)
    ensures
        r == ev_ioc_spec(nr, len as u64),
        nr < 256 && len < 0x4000 ==> r == 0x8000_0000 + len * 0x1_0000 + 0x4500 + nr,
{
    let l = len as u64;
    let n = nr as u64;
    let r = (2u64 << 30u64) | (l << 16u64) | (0x45u64 << 8u64) | n;
    assert(n < 256 && l < 0x4000 ==> r == 0x8000_0000 + l * 0x1_0000 + 0x4500 + n)
        by (bit_vector)
        requires
            r == (2u64 << 30u64) | (l << 16u64) | (0x45u64 << 8u64) | n,
    ;
    r
}

/// EVIOCGNAME(256): the device name.
pub fn eviocgname() -> (r: u64)
    ensures
        r == 0x8100_4506,
{
    ev_ioc(0x06, 256)
}

/// EVIOCGABS(axis): the `input_absinfo` of an axis.
pub fn eviocgabs(axis: u32) -> (r: u64)
    requires
        axis <= u32::MAX - 0x40,
    ensures
        r == ev_ioc_spec((0x40 + axis) as u32, 32),
        axis < 0xC0 ==> r == 0x8020_4540 + axis,
{
    ev_ioc(0x40 + axis, 32)
}

// ---------------------------------------------------------------------------
// raw events
// ---------------------------------------------------------------------------

/// A little-endian `u16` of two bytes.
pub open spec fn le_u16(b0: u8, b1: u8) -> u16 {
    (b0 + 256 * b1) as u16
}

/// A little-endian `i32` of four bytes.
pub open spec fn le_i32(b0: u8, b1: u8, b2: u8, b3: u8) -> i32 {
    ((b0 + 256 * b1 + 65536 * b2 + 16777216 * b3) as u32) as i32
}

/// The `(type, code, value)` of the 24-byte `input_event` at `off`.
pub open spec fn event_at(buf: Seq<u8>, off: int) -> (u16, u16, i32) {
    (
        le_u16(buf[off + 16], buf[off + 17]),
        le_u16(buf[off + 18], buf[off + 19]),
        le_i32(buf[off + 20], buf[off + 21], buf[off + 22], buf[off + 23]),
    )
}

/// The whole events among the first `n` bytes read, in order.
pub open spec fn events_in(buf: Seq<u8>, k: int) -> Seq<(u16, u16, i32)>
    decreases k,
{
    if k <= 0 {
        seq![]
    } else {
        events_in(buf, k - 1).push(event_at(buf, (k - 1) * 24))
    }
}

/// Split `n` bytes of a read from an evdev node into events.
pub fn input_events(buf: &[u8], n: usize) -> (r: Vec<(u16, u16, i32)>)
    requires
        n <= buf.len(),
    ensures
        r@ == events_in(buf@, (n / 24) as int),
{
    let mut r: Vec<(u16, u16, i32)> = Vec::new();
    let mut off: usize = 0;
    let mut k: usize = 0;
    while n - off >= 24
        invariant
            n <= buf.len(),
            off == k * 24,
            off <= n,
            r@ == events_in(buf@, k as int),
        decreases n - off,
    {
        let typ = buf[off + 16] as u16 + (buf[off + 17] as u16) * 256;
        let code = buf[off + 18] as u16 + (buf[off + 19] as u16) * 256;
        let u = buf[off + 20] as u32 + (buf[off + 21] as u32) * 256 + (buf[off + 22] as u32) * 65536
            + (buf[off + 23] as u32) * 16777216;
        let val = #[verifier::truncate] (u as i32);
        r.push((typ, code, val));
        off += 24;
        k += 1;
    }
    assert(k == n / 24) by (nonlinear_arith)
        requires
            off == k * 24,
            off <= n,
            n < off + 24,
    ;
    r
}

/// The positive maximum of an `input_absinfo` (bytes 8..12), if any.
pub fn abs_max(info: &[u8]) -> (r: Option<i32>)
    requires
        info.len() >= 12,
    ensures
        r == (if le_i32(info@[8], info@[9], info@[10], info@[11]) > 0 {
            Some(le_i32(info@[8], info@[9], info@[10], info@[11]))
        } else {
            None
        }),
{
    let u = info[8] as u32 + (info[9] as u32) * 256 + (info[10] as u32) * 65536 + (info[11] as u32)
        * 16777216;
    let m = #[verifier::truncate] (u as i32);
    if m > 0 {
        Some(m)
    } else {
        None
    }
}

// ---------------------------------------------------------------------------
// choosing nodes
// ---------------------------------------------------------------------------

/// `eventN` entries of `/dev/input` (the digits may be none).
pub open spec fn is_event_node(n: Seq<char>) -> bool {
    n.len() >= 5 && n.subrange(0, 5) == "event"@ && all_digits(n.subrange(5, n.len() as int))
}

/// The number of an event node (999 when it does not fit a `u32`).
pub open spec fn node_key(n: Seq<char>) -> int {
    let d = n.subrange(5, n.len() as int);
    if d.len() > 0 && digits_val(d) <= u32::MAX {
        digits_val(d)
    } else {
        999
    }
}

/// Insert `x` after every element whose key is not greater.
pub open spec fn insert_by_key(s: Seq<Seq<char>>, x: Seq<char>) -> Seq<Seq<char>>
    decreases s.len(),
{
    if s.len() == 0 {
        seq![x]
    } else if node_key(x) < node_key(s.last()) {
        insert_by_key(s.drop_last(), x).push(s.last())
    } else {
        s.push(x)
    }
}

/// The event nodes in order of their numbers, equal numbers in listing
/// order (a stable sort).
pub open spec fn nodes_sorted(s: Seq<Seq<char>>) -> Seq<Seq<char>>
    decreases s.len(),
{
    if s.len() == 0 {
        seq![]
    } else {
        let rest = nodes_sorted(s.drop_last());
        if is_event_node(s.last()) {
            insert_by_key(rest, s.last())
        } else {
            rest
        }
    }
}

fn key_of(n: &Vec<char>) -> (r: u32)
    requires
        n@.len() >= 5,
        all_digits(n@.subrange(5, n@.len() as int)),
    ensures
        r == node_key(n@),
{
    let ghost d = n@.subrange(5, n@.len() as int);
    if n.len() == 5 {
        return 999;
    }
    let mut acc: u64 = 0;
    let mut i: usize = 5;
    assert(d.subrange(0, 0) =~= Seq::<char>::empty());
    while i < n.len()
        invariant
            5 <= i <= n.len(),
            d == n@.subrange(5, n@.len() as int),
            all_digits(d),
            acc <= u32::MAX,
            acc == digits_val(d.subrange(0, i - 5)),
        decreases n.len() - i,
    {
        assert(is_digit(d[i - 5]));
        let c = n[i];
        let v = (c as u32 - '0' as u32) as u64;
        assert(d.subrange(0, i - 4).drop_last() =~= d.subrange(0, i - 5));
        assert(d.subrange(0, i - 4).last() == c);
        let next = acc * 10 + v;
        if next > 4294967295 {
            proof {
                lemma_digits_grow(d, i - 4);
            }
            return 999;
        }
        acc = next;
        i += 1;
    }
    assert(d.subrange(0, d.len() as int) =~= d);
    acc as u32
}

/// Appending digits never makes a number smaller.
proof fn lemma_digits_grow(d: Seq<char>, k: int)
    requires
        all_digits(d),
        0 <= k <= d.len(),
    ensures
        digits_val(d) >= digits_val(d.subrange(0, k)),
        digits_val(d.subrange(0, k)) >= 0,
    decreases d.len() - k,
{
    lemma_digits_nonneg(d.subrange(0, k));
    if k < d.len() {
        lemma_digits_grow(d, k + 1);
        assert(d.subrange(0, k + 1).drop_last() =~= d.subrange(0, k));
        assert(is_digit(d[k]));
    } else {
        assert(d.subrange(0, k) =~= d);
    }
}

proof fn lemma_digits_nonneg(d: Seq<char>)
    requires
        all_digits(d),
    ensures
        digits_val(d) >= 0,
    decreases d.len(),
{
    if d.len() > 0 {
        assert(is_digit(d.last()));
        lemma_digits_nonneg(d.drop_last());
    }
}

fn event_node(n: &Vec<char>) -> (r: bool)
    ensures
        r == is_event_node(n@),
{
    let p = to_chars("event");
    if !crate::text::has_prefix(n, &p) {
        proof {
            reveal_strlit("event");
            if n@.len() >= 5 && n@.subrange(0, 5) == "event"@ {
                assert(n@.subrange(0, p@.len() as int) == p@);
            }
        }
        return false;
    }
    proof {
        reveal_strlit("event");
    }
    let mut i: usize = 5;
    while i < n.len()
        invariant
            5 <= i <= n.len(),
            forall|k: int| 5 <= k < i ==> is_digit(#[trigger] n@[k]),
        decreases n.len() - i,
    {
        if !('0' <= n[i] && n[i] <= '9') {
            assert(!is_digit(n@.subrange(5, n@.len() as int)[i - 5]));
            return false;
        }
        i += 1;
    }
    assert(all_digits(n@.subrange(5, n@.len() as int))) by {
        assert forall|k: int| 0 <= k < n@.len() - 5 implies is_digit(
            #[trigger] n@.subrange(5, n@.len() as int)[k],
        ) by {
            assert(is_digit(n@[k + 5]));
        }
    }
    true
}

/// The `/dev/input` paths of the event nodes among directory entries, in
/// order of their numbers.
pub fn event_nodes(names: &Vec<String>) -> (r: Vec<String>)
    ensures
        strings_view(r@) == nodes_sorted(strings_view(names@)).map_values(
            |n: Seq<char>| "/dev/input/"@ + n,
        ),
{
    let ghost nv = strings_view(names@);
    let mut sorted: Vec<Vec<char>> = Vec::new();
    let mut keys: Vec<u32> = Vec::new();
    let mut i: usize = 0;
    assert(nv.subrange(0, 0) =~= Seq::<Seq<char>>::empty());
    while i < names.len()
        invariant
            i <= names.len(),
            nv == strings_view(names@),
            keys.len() == sorted.len(),
            crate::text::views(sorted@) == nodes_sorted(nv.subrange(0, i as int)),
            forall|j: int| 0 <= j < sorted.len() ==> #[trigger] keys@[j] == node_key(sorted@[j]@),
        decreases names.len() - i,
    {
        let n = to_chars(names[i].as_str());
        assert(nv.subrange(0, i + 1).drop_last() =~= nv.subrange(0, i as int));
        assert(nv.subrange(0, i + 1).last() == n@);
        if event_node(&n) {
            let key = key_of(&n);
            let ghost before = crate::text::views(sorted@);
            // walk back over the entries with a greater key
            let mut j = sorted.len();
            proof {
                assert(before.subrange(0, j as int) =~= before);
            }
            while j > 0 && key < keys[j - 1]
                invariant
                    j <= sorted.len(),
                    keys.len() == sorted.len(),
                    before == crate::text::views(sorted@),
                    key == node_key(n@),
                    forall|m: int| 0 <= m < sorted.len() ==> #[trigger] keys@[m] == node_key(sorted@[m]@),
                    insert_by_key(before, n@) == insert_by_key(before.subrange(0, j as int), n@)
                        + before.subrange(j as int, before.len() as int),
                decreases j,
            {
                let ghost pre = before.subrange(0, j as int);
                assert(pre.last() == sorted@[j - 1]@);
                assert(pre.drop_last() =~= before.subrange(0, j - 1));
                assert(insert_by_key(pre, n@) == insert_by_key(before.subrange(0, j - 1), n@).push(
                    pre.last(),
                ));
                assert(insert_by_key(before.subrange(0, j - 1), n@).push(pre.last())
                    + before.subrange(j as int, before.len() as int) =~= insert_by_key(
                    before.subrange(0, j - 1),
                    n@,
                ) + before.subrange(j - 1, before.len() as int));
                j -= 1;
            }
            proof {
                let pre = before.subrange(0, j as int);
                if j > 0 {
                    assert(pre.last() == sorted@[j - 1]@);
                    assert(insert_by_key(pre, n@) == pre.push(n@));
                } else {
                    assert(insert_by_key(pre, n@) == seq![n@]);
                }
            }
            sorted.insert(j, n);
            keys.insert(j, key);
            proof {
                assert(crate::text::views(sorted@) =~= before.subrange(0, j as int).push(n@)
                    + before.subrange(j as int, before.len() as int));
            }
        }
        i += 1;
    }
    assert(nv.subrange(0, names.len() as int) =~= nv);
    let ghost sv = crate::text::views(sorted@);
    let mut out: Vec<String> = Vec::new();
    let mut k: usize = 0;
    while k < sorted.len()
        invariant
            k <= sorted.len(),
            sv == crate::text::views(sorted@),
            strings_view(out@) == sv.subrange(0, k as int).map_values(|n: Seq<char>| "/dev/input/"@ + n),
        decreases sorted.len() - k,
    {
        let mut p = to_chars("/dev/input/");
        crate::text::push_all(&mut p, &sorted[k]);
        let ghost o0 = strings_view(out@);
        assert(p@ == "/dev/input/"@ + sv[k as int]);
        out.push(string_from(&p));
        assert(strings_view(out@) =~= o0.push(p@));
        assert(sv.subrange(0, k + 1).map_values(|n: Seq<char>| "/dev/input/"@ + n) =~= sv.subrange(
            0,
            k as int,
        ).map_values(|n: Seq<char>| "/dev/input/"@ + n).push("/dev/input/"@ + sv[k as int]));
        k += 1;
    }
    assert(sv.subrange(0, sorted.len() as int) =~= sv);
    out
}

/// What the touch probe found among `(node, name)` pairs (`None`: the
/// node could not be read).
#[derive(Debug, Clone, PartialEq, Eq)]
pub enum TouchFound {
    /// the first node whose name contains "Touch Bar"
    Node(String),
    /// no node could be read (a permission problem)
    Unreadable,
    /// readable nodes, none of them the Touch Bar
    Missing,
}

pub open spec fn names_view(s: Seq<(String, Option<String>)>) -> Seq<(Seq<char>, Option<Seq<char>>)> {
    s.map_values(|p: (String, Option<String>)| (p.0@, crate::text::opt_view(p.1)))
}

/// Index of the first entry whose name contains `"Touch Bar"`, if any.
pub open spec fn first_touch(s: Seq<(Seq<char>, Option<Seq<char>>)>) -> Option<int> {
    if exists|i: int| 0 <= i < s.len() && s[i].1 is Some && contains(s[i].1->0, "Touch Bar"@) {
        Some(
            choose|i: int|
                0 <= i < s.len() && s[i].1 is Some && contains(s[i].1->0, "Touch Bar"@) && forall|
                    j: int,
                | 0 <= j < i ==> !(s[j].1 is Some && contains(s[j].1->0, "Touch Bar"@)),
        )
    } else {
        None
    }
}

/// The touch strip among the event nodes, each with its device name.
pub fn pick_touch(nodes: &Vec<(String, Option<String>)>) -> (r: TouchFound)
    ensures
        ({
            let s = names_view(nodes@);
            match r {
                TouchFound::Node(n) => {
                    &&& first_touch(s) is Some
                    &&& n@ == s[first_touch(s)->0].0
                },
                TouchFound::Unreadable => first_touch(s) is None && forall|i: int|
                    0 <= i < s.len() ==> (#[trigger] s[i]).1 is None,
                TouchFound::Missing => first_touch(s) is None && exists|i: int|
                    0 <= i < s.len() && (#[trigger] s[i]).1 is Some,
            }
        }),
{
    let ghost s = names_view(nodes@);
    let needle = to_chars("Touch Bar");
    let mut readable = false;
    let mut i: usize = 0;
    while i < nodes.len()
        invariant
            i <= nodes.len(),
            s == names_view(nodes@),
            needle@ == "Touch Bar"@,
            forall|j: int| 0 <= j < i ==> !((#[trigger] s[j]).1 is Some && contains(s[j].1->0, "Touch Bar"@)),
            readable == exists|j: int| 0 <= j < i && (#[trigger] s[j]).1 is Some,
        decreases nodes.len() - i,
    {
        match &nodes[i].1 {
            Some(name) => {
                assert(s[i as int].1 == Some(name@));
                readable = true;
                let nv = to_chars(name.as_str());
                if crate::text::includes(&nv, &needle) {
                    proof {
                        let w = choose|k: int|
                            0 <= k < s.len() && s[k].1 is Some && contains(s[k].1->0, "Touch Bar"@)
                                && forall|j: int|
                                0 <= j < k ==> !(s[j].1 is Some && contains(s[j].1->0, "Touch Bar"@));
                        assert(0 <= i < s.len() && s[i as int].1 is Some && contains(s[i as int].1->0, "Touch Bar"@));
                        if w < i {
                            assert(!(s[w].1 is Some && contains(s[w].1->0, "Touch Bar"@)));
                        } else if w > i {
                            assert(!(s[i as int].1 is Some && contains(s[i as int].1->0, "Touch Bar"@)));
                        }
                    }
                    return TouchFound::Node(nodes[i].0.clone());
                }
            },
            None => {
                assert(s[i as int].1 is None);
            },
        }
        i += 1;
    }
    if readable {
        TouchFound::Missing
    } else {
        TouchFound::Unreadable
    }
}

/// The keyboard: the node named exactly "Apple SPI Keyboard", else the
/// first whose name contains "Keyboard", else `/dev/input/event1`.
pub open spec fn kbd_of(s: Seq<(Seq<char>, Option<Seq<char>>)>) -> Seq<char> {
    if exists|i: int| 0 <= i < s.len() && s[i].1 == Some("Apple SPI Keyboard"@) {
        s[choose|i: int| 0 <= i < s.len() && s[i].1 == Some("Apple SPI Keyboard"@) && forall|j: int|
            0 <= j < i ==> s[j].1 != Some("Apple SPI Keyboard"@)].0
    } else if exists|i: int| 0 <= i < s.len() && s[i].1 is Some && contains(s[i].1->0, "Keyboard"@) {
        s[choose|i: int|
            0 <= i < s.len() && s[i].1 is Some && contains(s[i].1->0, "Keyboard"@) && forall|j: int|
                0 <= j < i ==> !(s[j].1 is Some && contains(s[j].1->0, "Keyboard"@))].0
    } else {
        "/dev/input/event1"@
    }
}

pub fn pick_kbd(nodes: &Vec<(String, Option<String>)>) -> (r: String)
    ensures
        r@ == kbd_of(names_view(nodes@)),
{
    let ghost s = names_view(nodes@);
    let kw = to_chars("Keyboard");
    let mut fallback: Option<usize> = None;
    let mut i: usize = 0;
    while i < nodes.len()
        invariant
            i <= nodes.len(),
            s == names_view(nodes@),
            kw@ == "Keyboard"@,
            forall|j: int| 0 <= j < i ==> (#[trigger] s[j]).1 != Some("Apple SPI Keyboard"@),
            match fallback {
                Some(f) => f < i && s[f as int].1 is Some && contains(s[f as int].1->0, "Keyboard"@)
                    && forall|j: int|
                    0 <= j < f ==> !((#[trigger] s[j]).1 is Some && contains(s[j].1->0, "Keyboard"@)),
                None => forall|j: int|
                    0 <= j < i ==> !((#[trigger] s[j]).1 is Some && contains(s[j].1->0, "Keyboard"@)),
            },
        decreases nodes.len() - i,
    {
        match &nodes[i].1 {
            Some(name) => {
                assert(s[i as int].1 == Some(name@));
                if str_eq(name.as_str(), "Apple SPI Keyboard") {
                    proof {
                        let w = choose|k: int|
                            0 <= k < s.len() && s[k].1 == Some("Apple SPI Keyboard"@) && forall|j: int|
                                0 <= j < k ==> s[j].1 != Some("Apple SPI Keyboard"@);
                        assert(0 <= i < s.len() && s[i as int].1 == Some("Apple SPI Keyboard"@));
                        if w < i {
                            assert(s[w].1 != Some("Apple SPI Keyboard"@));
                        } else if w > i {
                            assert(s[i as int].1 != Some("Apple SPI Keyboard"@));
                        }
                    }
                    return nodes[i].0.clone();
                }
                let nv = to_chars(name.as_str());
                if fallback.is_none() && crate::text::includes(&nv, &kw) {
                    fallback = Some(i);
                }
            },
            None => {},
        }
        i += 1;
    }
    match fallback {
        Some(f) => {
            proof {
                let w = choose|k: int|
                    0 <= k < s.len() && s[k].1 is Some && contains(s[k].1->0, "Keyboard"@) && forall|
                        j: int,
                    | 0 <= j < k ==> !(s[j].1 is Some && contains(s[j].1->0, "Keyboard"@));
                assert(0 <= f < s.len() && s[f as int].1 is Some && contains(s[f as int].1->0, "Keyboard"@));
                if w < f {
                    assert(!(s[w].1 is Some && contains(s[w].1->0, "Keyboard"@)));
                } else if w > f {
                    assert(!(s[f as int].1 is Some && contains(s[f as int].1->0, "Keyboard"@)));
                }
            }
            nodes[f].0.clone()
        },
        None => owned("/dev/input/event1"),
    }
}

} // verus!
