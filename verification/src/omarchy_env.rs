//! Where the Omarchy helpers live (`OMARCHY_PATH`).
//!
//! Systemd user services start without `OMARCHY_PATH`; the daemon fixes
//! its own environment at startup so every helper it spawns inherits it.
//! The rule mirrors Omarchy's bootstrap: a non-blank ambient value wins,
//! then the dev-link file `/etc/omarchy.conf`, then the packaged default.
use vstd::prelude::*;
use crate::text::{
    chars_eq, cut_in, drop_end_in, drop_prefix_all, drop_start_in, lines, lines_of, matches_at,
    opt_chars, opt_view, owned, push_all, push_str, skip_in, skip_prefix_all, slice_of, split_char,
    split_on, starts_with, str_eq, string_from, to_chars, trim, trim_range, trimmed, views,
};

verus! {

pub const DEFAULT_PATH: &'static str = "/usr/share/omarchy";

/// Ambient env wins, then dev-link conf, then the packaged default.
pub open spec fn resolved(env: Option<Seq<char>>, conf_exists: bool, conf_val: Option<Seq<char>>) -> Seq<
    char,
> {
    if env is Some && trim(env->0).len() > 0 {
        env->0
    } else if conf_exists {
        match conf_val {
            Some(v) => v,
            None => DEFAULT_PATH@,
        }
    } else {
        DEFAULT_PATH@
    }
}

/// The `OMARCHY_PATH` that helpers should see.
pub fn resolve(env: Option<String>, conf_exists: bool, conf_val: Option<String>) -> (r: String)
    ensures
        r@ == resolved(opt_view(env), conf_exists, opt_view(conf_val)),
{
    if let Some(v) = env {
        let t = trimmed(v.as_str());
        if t.len() > 0 {
            return v;
        }
    }
    if conf_exists {
        match conf_val {
            Some(v) => v,
            None => owned(DEFAULT_PATH),
        }
    } else {
        owned(DEFAULT_PATH)
    }
}

/// The value an `OMARCHY_PATH=<value>` line carries, if the line is one.
/// `export ` prefixes, surrounding quotes, a trailing `;` and blanks are
/// dropped; an empty value does not count.
pub open spec fn conf_line_value(line: Seq<char>) -> Option<Seq<char>> {
    let l = trim(drop_prefix_all(trim(line), "export "@));
    let key = "OMARCHY_PATH="@;
    if starts_with(l, key) {
        let rest = l.subrange(key.len() as int, l.len() as int);
        let v = trim(
            drop_end_in(drop_end_in(drop_start_in(trim(rest), "\"'"@), "\"'"@), ";"@),
        );
        if v.len() > 0 {
            Some(v)
        } else {
            None
        }
    } else {
        None
    }
}

/// The first line of `/etc/omarchy.conf` that sets a value.
pub open spec fn conf_value(ls: Seq<Seq<char>>) -> Option<Seq<char>>
    decreases ls.len(),
{
    if ls.len() == 0 {
        None
    } else {
        match conf_line_value(ls[0]) {
            Some(v) => Some(v),
            None => conf_value(ls.drop_first()),
        }
    }
}

fn line_value(l: &Vec<char>) -> (r: Option<Vec<char>>)
    ensures
        opt_chars(r) == conf_line_value(l@),
{
    let export = to_chars("export ");
    let key = to_chars("OMARCHY_PATH=");
    let quotes = to_chars("\"'");
    let semi = to_chars(";");
    let n = l.len();
    assert(l@.subrange(0, n as int) =~= l@);
    let (a, b) = trim_range(l, 0, n);
    let a2 = skip_prefix_all(l, a, b, &export);
    let (a3, b3) = trim_range(l, a2, b);
    let ghost t = l@.subrange(a3 as int, b3 as int);
    if key.len() > b3 - a3 || !matches_at(l, &key, a3) {
        proof {
            if starts_with(t, key@) {
                assert(t.subrange(0, key@.len() as int) =~= l@.subrange(
                    a3 as int,
                    a3 + key@.len(),
                ));
            }
        }
        return None;
    }
    assert(t.subrange(0, key@.len() as int) =~= l@.subrange(a3 as int, a3 + key@.len()));
    let r0 = a3 + key.len();
    assert(t.subrange(key@.len() as int, t.len() as int) =~= l@.subrange(r0 as int, b3 as int));
    let (c1, d1) = trim_range(l, r0, b3);
    let c2 = skip_in(l, c1, d1, &quotes);
    let d2 = cut_in(l, c2, d1, &quotes);
    let d3 = cut_in(l, c2, d2, &semi);
    let (e1, e2) = trim_range(l, c2, d3);
    if e1 == e2 {
        None
    } else {
        Some(slice_of(l, e1, e2))
    }
}

/// `OMARCHY_PATH` as set by the dev-link file's text, if it sets one.
pub fn from_omarchy_conf(text: &str) -> (r: Option<String>)
    ensures
        opt_view(r) == conf_value(lines(text@)),
{
    let ls = lines_of(text);
    let ghost all = views(ls@);
    let mut i: usize = 0;
    assert(all.subrange(0, all.len() as int) =~= all);
    while i < ls.len()
        invariant
            i <= ls.len(),
            all == views(ls@),
            all == lines(text@),
            conf_value(all) == conf_value(all.subrange(i as int, all.len() as int)),
        decreases ls.len() - i,
    {
        let ghost rest = all.subrange(i as int, all.len() as int);
        assert(all[i as int] == ls@[i as int]@);
        assert(rest[0] == ls@[i as int]@);
        assert(rest.drop_first() =~= all.subrange(i + 1, all.len() as int));
        match line_value(&ls[i]) {
            Some(v) => {
                assert(rest.len() > 0);
                assert(conf_line_value(rest[0]) == Some(v@));
                assert(conf_value(rest) == Some(v@));
                return Some(string_from(&v));
            },
            None => {},
        }
        i += 1;
    }
    None
}

/// The helper directory for a base: `<base without trailing '/'>/bin`.
pub open spec fn bin_dir(base: Seq<char>) -> Seq<char> {
    drop_end_in(base, "/"@) + "/bin"@
}

/// New `PATH` for a base: dev-link bases get their `bin` dir prepended
/// unless it is already a `PATH` entry; `None` = leave `PATH` as it is.
pub open spec fn ensured_path(base: Seq<char>, path: Seq<char>) -> Option<Seq<char>> {
    if base == DEFAULT_PATH@ {
        None
    } else if split_char(path, ':').contains(bin_dir(base)) {
        None
    } else if path.len() == 0 {
        Some(bin_dir(base))
    } else {
        Some(bin_dir(base) + ":"@ + path)
    }
}

/// The `PATH` rule of `ensure` for a resolved base and the current `PATH`.
pub fn ensure_path(base: &str, path: &str) -> (r: Option<String>)
    ensures
        opt_view(r) == ensured_path(base@, path@),
{
    if str_eq(base, DEFAULT_PATH) {
        return None;
    }
    let b = to_chars(base);
    let slash = to_chars("/");
    assert(b@.subrange(0, b.len() as int) =~= b@);
    let e = cut_in(&b, 0, b.len(), &slash);
    let mut bin = slice_of(&b, 0, e);
    push_str(&mut bin, "/bin");
    let p = to_chars(path);
    let parts = split_on(&p, ':');
    let mut i: usize = 0;
    while i < parts.len()
        invariant
            i <= parts.len(),
            views(parts@) == split_char(p@, ':'),
            p@ == path@,
            base@ != DEFAULT_PATH@,
            bin@ == bin_dir(base@),
            forall|k: int| 0 <= k < i ==> views(parts@)[k] != bin@,
        decreases parts.len() - i,
    {
        if chars_eq(&parts[i], &bin) {
            assert(views(parts@)[i as int] == bin@);
            assert(split_char(p@, ':')[i as int] == bin_dir(base@));
            assert(split_char(path@, ':').contains(bin_dir(base@)));
            return None;
        }
        i += 1;
    }
    assert(!split_char(p@, ':').contains(bin@));
    if p.len() == 0 {
        Some(string_from(&bin))
    } else {
        let mut out = bin;
        push_str(&mut out, ":");
        push_all(&mut out, &p);
        Some(string_from(&out))
    }
}

} // verus!
