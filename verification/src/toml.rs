//! TOML tables as flat `key.path = "string"` pairs.
//!
//! Theme color files are TOML; the `toml` crate parses them and the
//! result is carried as a `Toml` value of this crate, which the verified
//! walk below flattens.
use vstd::prelude::*;
use crate::text::{push_str, string_from, to_chars};

verus! {

/// A TOML value as the color reader sees it: strings, tables (entries in
/// the parser's order), and everything else.
#[derive(Debug)]
pub enum Toml {
    Str(String),
    Table(Vec<(String, Toml)>),
    Other,
}

#[verifier::external_type_specification]
#[verifier::external_body]
pub struct ExTomlValue(toml::Value);

/// What the `toml` crate parses a document into (`None` when it is not
/// TOML).
pub uninterp spec fn toml_of(text: Seq<char>) -> Option<Toml>;

/// `text.parse::<toml::Value>()`, converted to `Toml`. Claimed: the result
/// depends on the text alone (it is `toml_of(text)`).
#[verifier::external_body]
pub fn parse_toml(text: &str) -> (r: Option<Toml>)
    ensures
        r == toml_of(text@),
{
    text.parse::<toml::Value>().ok().map(from_toml)
}

/// `toml::Value` as a `Toml`, variant by variant.
#[verifier::external_body]
fn from_toml(v: toml::Value) -> Toml {
    match v {
        toml::Value::String(s) => Toml::Str(s),
        toml::Value::Table(t) => Toml::Table(t.into_iter().map(|(k, x)| (k, from_toml(x))).collect()),
        toml::Value::Integer(_) => Toml::Other,
        toml::Value::Float(_) => Toml::Other,
        toml::Value::Boolean(_) => Toml::Other,
        toml::Value::Datetime(_) => Toml::Other,
        toml::Value::Array(_) => Toml::Other,
    }
}

/// The key of `k` inside a table reached by `prefix`.
pub open spec fn dotted(prefix: Seq<char>, k: Seq<char>) -> Seq<char> {
    if prefix.len() == 0 {
        k
    } else {
        prefix + seq!['.'] + k
    }
}

/// Every string under `v`, keyed by its dotted path from `prefix`, in
/// table order; other values are skipped.
pub open spec fn flat(prefix: Seq<char>, v: Toml) -> Seq<(Seq<char>, Seq<char>)>
    decreases v, 1int,
{
    match v {
        Toml::Str(s) => seq![(prefix, s@)],
        Toml::Table(t) => flat_entries(prefix, t@),
        Toml::Other => seq![],
    }
}

pub open spec fn flat_entries(prefix: Seq<char>, es: Seq<(String, Toml)>) -> Seq<
    (Seq<char>, Seq<char>),
>
    decreases es, 0int,
{
    if es.len() == 0 {
        seq![]
    } else {
        flat_entries(prefix, es.drop_last()) + flat(dotted(prefix, es.last().0@), es.last().1)
    }
}

fn dotted_key(prefix: &Vec<char>, k: &String) -> (r: Vec<char>)
    ensures
        r@ == dotted(prefix@, k@),
{
    if prefix.len() == 0 {
        to_chars(k.as_str())
    } else {
        let mut r = prefix.clone();
        r.push('.');
        push_str(&mut r, k.as_str());
        r
    }
}

fn walk(prefix: &Vec<char>, v: &Toml, out: &mut Vec<(String, String)>)
    ensures
        crate::theme::pairs_view(final(out)@) == crate::theme::pairs_view(old(out)@) + flat(
            prefix@,
            *v,
        ),
    decreases v,
{
    match v {
        Toml::Str(s) => {
            let ghost before = crate::theme::pairs_view(out@);
            out.push((string_from(prefix), s.clone()));
            assert(crate::theme::pairs_view(out@) =~= before + seq![(prefix@, s@)]);
        },
        Toml::Table(t) => {
            let ghost start = crate::theme::pairs_view(out@);
            let mut i: usize = 0;
            assert(t@.subrange(0, 0) =~= Seq::<(String, Toml)>::empty());
            assert(start + flat_entries(prefix@, t@.subrange(0, 0)) =~= start);
            while i < t.len()
                invariant
                    i <= t.len(),
                    *v == Toml::Table(*t),
                    crate::theme::pairs_view(out@) == start + flat_entries(
                        prefix@,
                        t@.subrange(0, i as int),
                    ),
                decreases t.len() - i,
            {
                let key = dotted_key(prefix, &t[i].0);
                let ghost mid = crate::theme::pairs_view(out@);
                proof {
                    assert(decreases_to!(*v => (*v)->Table_0));
                    assert((*v)->Table_0 == *t);
                    assert(decreases_to!(*t => t@));
                    assert(decreases_to!(t@ => t@[i as int]));
                    assert(decreases_to!(t@[i as int] => t@[i as int].1));
                }
                walk(&key, &t[i].1, out);
                assert(t@.subrange(0, i + 1).drop_last() =~= t@.subrange(0, i as int));
                assert(t@.subrange(0, i + 1).last() == t@[i as int]);
                assert(crate::theme::pairs_view(out@) =~= start + flat_entries(
                    prefix@,
                    t@.subrange(0, i + 1),
                ));
                i += 1;
            }
            assert(t@.subrange(0, t.len() as int) =~= t@);
        },
        Toml::Other => {
            assert(crate::theme::pairs_view(out@) =~= crate::theme::pairs_view(old(out)@) + flat(
                prefix@,
                *v,
            ));
        },
    }
}

/// A parsed TOML document as flat pairs: every string with its dotted
/// key, in table order; nothing when there is no document.
pub open spec fn table_in(parsed: Option<Toml>) -> Seq<(Seq<char>, Seq<char>)> {
    match parsed {
        Some(v) => flat(seq![], v),
        None => seq![],
    }
}

/// A TOML document as flat pairs: every string with its dotted key, in
/// table order; nothing when the text is not TOML.
pub open spec fn table_of(text: Seq<char>) -> Seq<(Seq<char>, Seq<char>)> {
    table_in(toml_of(text))
}

/// The flat pairs of a parsed TOML document.
pub fn flat_from(parsed: &Option<Toml>) -> (r: Vec<(String, String)>)
    ensures
        crate::theme::pairs_view(r@) == table_in(*parsed),
{
    let mut out: Vec<(String, String)> = Vec::new();
    match parsed {
        Some(v) => {
            let root: Vec<char> = Vec::new();
            assert(root@ =~= Seq::<char>::empty());
            walk(&root, v, &mut out);
            assert(crate::theme::pairs_view(out@) =~= flat(seq![], *v));
        },
        None => {
            assert(crate::theme::pairs_view(out@) =~= Seq::<(Seq<char>, Seq<char>)>::empty());
        },
    }
    out
}

pub fn flat_table(text: &str) -> (r: Vec<(String, String)>)
    ensures
        crate::theme::pairs_view(r@) == table_of(text@),
{
    flat_from(&parse_toml(text))
}

} // verus!
