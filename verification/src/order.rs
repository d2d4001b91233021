//! Ordering of strings as std's `Ord` for `String` orders them (bytewise
//! on UTF-8, which is lexicographic by code point), and sorting.
use vstd::prelude::*;
use crate::text::to_chars;

verus! {

/// `a <= b` in std's string order.
pub open spec fn lex_le(a: Seq<char>, b: Seq<char>) -> bool
    decreases a.len(),
{
    if a.len() == 0 {
        true
    } else if b.len() == 0 {
        false
    } else if a[0] != b[0] {
        (a[0] as u32) < (b[0] as u32)
    } else {
        lex_le(a.drop_first(), b.drop_first())
    }
}

pub proof fn lemma_lex_total(a: Seq<char>, b: Seq<char>)
    ensures
        lex_le(a, b) || lex_le(b, a),
    decreases a.len(),
{
    if a.len() > 0 && b.len() > 0 && a[0] == b[0] {
        lemma_lex_total(a.drop_first(), b.drop_first());
    } else if a.len() > 0 && b.len() > 0 {
        vstd::utf8::char_u32_cast(a[0], a[0] as u32);
        vstd::utf8::char_u32_cast(b[0], b[0] as u32);
    }
}

pub proof fn lemma_lex_refl(a: Seq<char>)
    ensures
        lex_le(a, a),
    decreases a.len(),
{
    if a.len() > 0 {
        lemma_lex_refl(a.drop_first());
    }
}

pub proof fn lemma_push_contains<A>(s: Seq<A>, x: A, a: A)
    ensures
        s.push(x).contains(a) == (s.contains(a) || a == x),
{
    if s.contains(a) {
        let k = choose|k: int| 0 <= k < s.len() && s[k] == a;
        assert(s.push(x)[k] == a);
    }
    if a == x {
        assert(s.push(x)[s.len() as int] == a);
    }
    if s.push(x).contains(a) {
        let k = choose|k: int| 0 <= k < s.len() + 1 && s.push(x)[k] == a;
        if k < s.len() {
            assert(s[k] == a);
        }
    }
}

pub proof fn lemma_lex_trans(a: Seq<char>, b: Seq<char>, c: Seq<char>)
    requires
        lex_le(a, b),
        lex_le(b, c),
    ensures
        lex_le(a, c),
    decreases a.len(),
{
    if a.len() > 0 && b.len() > 0 && c.len() > 0 && a[0] == b[0] && b[0] == c[0] {
        lemma_lex_trans(a.drop_first(), b.drop_first(), c.drop_first());
    }
}

pub proof fn lemma_lex_antisym(a: Seq<char>, b: Seq<char>)
    requires
        lex_le(a, b),
        lex_le(b, a),
    ensures
        a == b,
    decreases a.len(),
{
    if a.len() > 0 && b.len() > 0 {
        if a[0] == b[0] {
            lemma_lex_antisym(a.drop_first(), b.drop_first());
            assert(a =~= seq![a[0]] + a.drop_first());
            assert(b =~= seq![b[0]] + b.drop_first());
        } else {
            vstd::utf8::char_u32_cast(a[0], a[0] as u32);
        vstd::utf8::char_u32_cast(b[0], b[0] as u32);
        }
    } else {
        assert(a =~= b);
    }
}

/// `a <= b` for strings.
pub fn str_le(a: &str, b: &str) -> (r: bool)
    ensures
        r == lex_le(a@, b@),
{
    let x = to_chars(a);
    let y = to_chars(b);
    let mut i: usize = 0;
    assert(x@.subrange(0, x.len() as int) =~= x@);
    assert(y@.subrange(0, y.len() as int) =~= y@);
    while i < x.len() && i < y.len() && x[i] == y[i]
        invariant
            i <= x.len(),
            i <= y.len(),
            lex_le(x@, y@) == lex_le(x@.subrange(i as int, x.len() as int), y@.subrange(
                i as int,
                y.len() as int,
            )),
        decreases x.len() - i,
    {
        assert(x@.subrange(i as int, x.len() as int).drop_first() =~= x@.subrange(
            i + 1,
            x.len() as int,
        ));
        assert(y@.subrange(i as int, y.len() as int).drop_first() =~= y@.subrange(
            i + 1,
            y.len() as int,
        ));
        i += 1;
    }
    if i == x.len() {
        true
    } else if i == y.len() {
        false
    } else {
        assert(x@.subrange(i as int, x.len() as int)[0] == x@[i as int]);
        assert(y@.subrange(i as int, y.len() as int)[0] == y@[i as int]);
        (x[i] as u32) < (y[i] as u32)
    }
}

pub open spec fn strings_view(v: Seq<String>) -> Seq<Seq<char>> {
    v.map_values(|s: String| s@)
}

/// Ascending in std's string order.
pub open spec fn sorted(s: Seq<Seq<char>>) -> bool {
    forall|i: int, j: int| #![trigger s[i], s[j]] 0 <= i < j < s.len() ==> lex_le(s[i], s[j])
}

/// Strictly ascending: sorted with no repeats.
pub open spec fn sorted_unique(s: Seq<Seq<char>>) -> bool {
    forall|i: int, j: int| #![trigger s[i], s[j]] 0 <= i < j < s.len() ==> lex_le(s[i], s[j]) && s[i] != s[j]
}

proof fn lemma_insert_sorted(r: Seq<Seq<char>>, pos: int, x: Seq<char>)
    requires
        sorted(r),
        0 <= pos <= r.len(),
        forall|k: int| 0 <= k < pos ==> lex_le(r[k], x),
        pos < r.len() ==> !lex_le(r[pos], x),
    ensures
        sorted(r.insert(pos, x)),
{
    let t = r.insert(pos, x);
    if pos < r.len() {
        lemma_lex_total(r[pos], x);
    }
    assert forall|i: int, j: int| 0 <= i < j < t.len() implies lex_le(t[i], t[j]) by {
        if j < pos {
        } else if i > pos {
        } else if i == pos {
            // x <= r[pos] <= r[j - 1]
            if j - 1 > pos {
                lemma_lex_trans(x, r[pos], r[j - 1]);
            }
        } else if j == pos {
        } else {
            // i < pos < j
            assert(lex_le(r[i], x));
            lemma_lex_trans(r[i], x, r[pos]);
            if j - 1 > pos {
                lemma_lex_trans(r[i], r[pos], r[j - 1]);
            }
        }
    }
}

proof fn lemma_insert_unique(r: Seq<Seq<char>>, pos: int, x: Seq<char>)
    requires
        sorted_unique(r),
        0 <= pos <= r.len(),
        forall|k: int| 0 <= k < pos ==> lex_le(r[k], x),
        pos < r.len() ==> !lex_le(r[pos], x),
        pos > 0 ==> !lex_le(x, r[pos - 1]),
    ensures
        sorted_unique(r.insert(pos, x)),
{
    assert(sorted(r));
    lemma_insert_sorted(r, pos, x);
    let t = r.insert(pos, x);
    assert forall|a: int, b: int| 0 <= a < b < t.len() implies t[a] != t[b] by {
        if a == pos {
            assert(t[a] == x);
            assert(t[b] == r[b - 1]);
            if r[b - 1] == x {
                if b - 1 == pos {
                    lemma_lex_refl(x);
                    assert(lex_le(r[pos], x));
                } else {
                    assert(lex_le(r[pos], r[b - 1]));
                }
                assert(false);
            }
            assert(t[a] != t[b]);
        } else if b == pos {
            assert(t[b] == x);
            assert(t[a] == r[a]);
            if r[a] == x {
                if a == pos - 1 {
                    lemma_lex_refl(x);
                    assert(lex_le(x, r[pos - 1]));
                } else {
                    assert(lex_le(r[a], r[pos - 1]));
                }
                assert(false);
            }
            assert(t[a] != t[b]);
        } else {
            let a2 = if a < pos { a } else { a - 1 };
            let b2 = if b < pos { b } else { b - 1 };
            assert(t[a] == r[a2]);
            assert(t[b] == r[b2]);
            assert(a2 < b2);
            assert(r[a2] != r[b2]);
        }
    }
}

/// First position whose string is greater than `x` (insertion point).
fn insertion_point(r: &Vec<String>, x: &String) -> (pos: usize)
    requires
        sorted(strings_view(r@)),
    ensures
        pos <= r.len(),
        forall|k: int| 0 <= k < pos ==> lex_le(r@[k]@, x@),
        pos < r.len() ==> !lex_le(r@[pos as int]@, x@),
{
    let mut i: usize = 0;
    while i < r.len() && str_le(r[i].as_str(), x.as_str())
        invariant
            i <= r.len(),
            forall|k: int| 0 <= k < i ==> lex_le(r@[k]@, x@),
        decreases r.len() - i,
    {
        i += 1;
    }
    i
}

/// The strings in std's order (a sorted permutation).
pub fn sort_strings(v: Vec<String>) -> (r: Vec<String>)
    ensures
        sorted(strings_view(r@)),
        strings_view(r@).to_multiset() == strings_view(v@).to_multiset(),
{
    let mut r: Vec<String> = Vec::new();
    let mut i: usize = 0;
    assert(strings_view(v@.subrange(0, 0)) =~= Seq::<Seq<char>>::empty());
    assert(strings_view(r@) =~= Seq::<Seq<char>>::empty());
    while i < v.len()
        invariant
            i <= v.len(),
            sorted(strings_view(r@)),
            strings_view(r@).to_multiset() == strings_view(v@.subrange(0, i as int)).to_multiset(),
        decreases v.len() - i,
    {
        let x = v[i].clone();
        let pos = insertion_point(&r, &x);
        let ghost before = strings_view(r@);
        proof {
            lemma_insert_sorted(before, pos as int, x@);
        }
        r.insert(pos, x);
        let ghost after = strings_view(r@);
        proof {
            assert(after =~= before.insert(pos as int, x@));
            assert(after.remove(pos as int) =~= before);
            assert(after[pos as int] == x@);
            assert(after.to_multiset() =~= before.to_multiset().insert(x@)) by {
                after.to_multiset_ensures();
                before.to_multiset_ensures();
                assert(after.remove(pos as int).to_multiset() =~= after.to_multiset().remove(
                    x@,
                ));
                assert(after.to_multiset().count(x@) > 0) by {
                    assert(after.contains(x@));
                }
            }
            strings_view(v@.subrange(0, i as int)).to_multiset_ensures();
            assert(strings_view(v@.subrange(0, i + 1)) =~= strings_view(
                v@.subrange(0, i as int),
            ).push(v@[i as int]@));
        }
        i += 1;
    }
    assert(v@.subrange(0, v.len() as int) =~= v@);
    r
}

/// The distinct strings in std's order.
pub fn sort_unique(v: Vec<String>) -> (r: Vec<String>)
    ensures
        sorted_unique(strings_view(r@)),
        strings_view(r@).to_set() == strings_view(v@).to_set(),
{
    let mut r: Vec<String> = Vec::new();
    let mut i: usize = 0;
    assert(strings_view(r@).to_set() =~= strings_view(v@.subrange(0, 0)).to_set());
    while i < v.len()
        invariant
            i <= v.len(),
            sorted_unique(strings_view(r@)),
            strings_view(r@).to_set() == strings_view(v@.subrange(0, i as int)).to_set(),
        decreases v.len() - i,
    {
        let x = v[i].clone();
        let pos = insertion_point(&r, &x);
        let ghost before = strings_view(r@);
        let ghost pre = strings_view(v@.subrange(0, i as int));
        assert(strings_view(v@.subrange(0, i + 1)) =~= pre.push(x@));
        let dup = pos > 0 && str_le(x.as_str(), r[pos - 1].as_str());
        if dup {
            proof {
                lemma_lex_antisym(before[pos - 1], x@);
                assert(before[pos - 1] == x@);
                assert forall|a: Seq<char>| pre.push(x@).contains(a) == before.contains(a) by {
                    lemma_push_contains(pre, x@, a);
                    assert(pre.to_set().contains(a) == before.to_set().contains(a));
                    if a == x@ {
                        assert(before.contains(a)) by {
                            assert(before[pos - 1] == a);
                        }
                    }
                }
                assert(pre.push(x@).to_set() =~= before.to_set());
            }
        } else {
            proof {
                lemma_insert_unique(before, pos as int, x@);
                let t = before.insert(pos as int, x@);
                assert forall|a: Seq<char>| #[trigger] t.contains(a) == (before.contains(a) || a == x@) by {
                    if t.contains(a) {
                        let k = choose|k: int| 0 <= k < t.len() && t[k] == a;
                        if k < pos {
                            assert(before[k] == a);
                        } else if k > pos {
                            assert(before[k - 1] == a);
                        }
                    }
                    if before.contains(a) {
                        let k = choose|k: int| 0 <= k < before.len() && before[k] == a;
                        if k < pos {
                            assert(t[k] == a);
                        } else {
                            assert(t[k + 1] == a);
                        }
                    }
                    if a == x@ {
                        assert(t[pos as int] == a);
                    }
                }
                assert forall|a: Seq<char>| pre.push(x@).contains(a) == t.contains(a) by {
                    lemma_push_contains(pre, x@, a);
                    assert(pre.to_set().contains(a) == before.to_set().contains(a));
                }
                assert(pre.push(x@).to_set() =~= t.to_set());
            }
            r.insert(pos, x);
            assert(strings_view(r@) =~= before.insert(pos as int, x@));
        }
        i += 1;
    }
    assert(v@.subrange(0, v.len() as int) =~= v@);
    r
}

} // verus!
