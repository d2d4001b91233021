//! Real app icons, found the way the Omarchy menu finds them:
//! WM class -> `.desktop` entry -> `Icon=` name -> icon-theme file.
//!
//! The daemon walks the directories and checks which files exist; this
//! module decides where to look, in what order, and which hit wins.
use vstd::prelude::*;
use crate::text::{
    drop_end_in, drop_start_in, index_of, lemma_index_of_bounds, lines, lines_of, lowercase,
    opt_view, owned, push_str, slice_of, split_char, split_on, starts_with, str_eq, string_from,
    to_chars, to_lower, trim, trim_chars, trimmed, views, skip_in, cut_in, has_prefix,
};
use crate::order::strings_view;
use crate::theme::listed;

verus! {

// ---------------------------------------------------------------------------
// where to look
// ---------------------------------------------------------------------------

/// Directories searched for `.desktop` files.
pub open spec fn desktop_dirs_of(home: Seq<char>) -> Seq<Seq<char>> {
    seq![
        home + "/.local/share/applications"@,
        "/usr/share/applications"@,
        home + "/.local/share/flatpak/exports/share/applications"@,
        "/var/lib/flatpak/exports/share/applications"@,
        "/var/lib/snapd/desktop/applications"@,
    ]
}

fn concat(a: &str, b: &str) -> (r: String)
    ensures
        r@ == a@ + b@,
{
    let mut v = to_chars(a);
    push_str(&mut v, b);
    string_from(&v)
}

pub fn desktop_dirs(home: &str) -> (r: Vec<String>)
    ensures
        strings_view(r@) == desktop_dirs_of(home@),
{
    let mut r: Vec<String> = Vec::new();
    r.push(concat(home, "/.local/share/applications"));
    r.push(owned("/usr/share/applications"));
    r.push(concat(home, "/.local/share/flatpak/exports/share/applications"));
    r.push(owned("/var/lib/flatpak/exports/share/applications"));
    r.push(owned("/var/lib/snapd/desktop/applications"));
    assert(strings_view(r@) =~= desktop_dirs_of(home@));
    r
}

/// Base directories searched for themed icons.
pub open spec fn icon_bases_of(home: Seq<char>) -> Seq<Seq<char>> {
    seq![home + "/.icons"@, home + "/.local/share/icons"@, "/usr/share/icons"@]
}

pub fn icon_bases(home: &str) -> (r: Vec<String>)
    ensures
        strings_view(r@) == icon_bases_of(home@),
{
    let mut r: Vec<String> = Vec::new();
    r.push(concat(home, "/.icons"));
    r.push(concat(home, "/.local/share/icons"));
    r.push(owned("/usr/share/icons"));
    assert(strings_view(r@) =~= icon_bases_of(home@));
    r
}

/// Where rasterized icons are cached.
pub fn icon_cache_dir(home: &str) -> (r: String)
    ensures
        r@ == crate::text::path_join(home@, ".cache/omarchy-touchbar/icons"@),
{
    crate::text::join_path(home, ".cache/omarchy-touchbar/icons")
}

/// The GTK icon theme from `gsettings get org.gnome.desktop.interface
/// icon-theme`: trimmed, quotes stripped; "hicolor" when the command
/// failed or named none.
pub open spec fn icon_theme_of(out: Option<Seq<char>>) -> Seq<char> {
    match out {
        Some(o) => {
            let s = drop_end_in(drop_start_in(trim(o), seq!['\'']), seq!['\'']);
            if s.len() > 0 {
                s
            } else {
                "hicolor"@
            }
        },
        None => "hicolor"@,
    }
}

pub fn icon_theme(out: Option<&str>) -> (r: String)
    ensures
        r@ == icon_theme_of(
            match out {
                Some(o) => Some(o@),
                None => None,
            },
        ),
{
    match out {
        Some(o) => {
            let t = trimmed(o);
            let q = vec!['\''];
            assert(q@ =~= seq!['\'']);
            let a = skip_in(&t, 0, t.len(), &q);
            let b = cut_in(&t, a, t.len(), &q);
            assert(t@.subrange(0, t.len() as int) =~= t@);
            let s = slice_of(&t, a, b);
            if s.len() > 0 {
                string_from(&s)
            } else {
                owned("hicolor")
            }
        },
        None => owned("hicolor"),
    }
}

// ---------------------------------------------------------------------------
// the theme chain
// ---------------------------------------------------------------------------

/// A character with ASCII capitals folded to lower case, as a code.
pub open spec fn folded(c: char) -> u32 {
    let u = c as u32;
    if 65 <= u <= 90 {
        (u + 32) as u32
    } else {
        u
    }
}

/// `str::eq_ignore_ascii_case`.
pub open spec fn same_ignoring_case(a: Seq<char>, b: Seq<char>) -> bool {
    a.len() == b.len() && forall|i: int| 0 <= i < a.len() ==> folded(a[i]) == folded(b[i])
}

fn fold_char(c: char) -> (r: u32)
    ensures
        r == folded(c),
{
    let u = c as u32;
    if 65 <= u && u <= 90 {
        u + 32
    } else {
        u
    }
}

pub fn eq_ignore_case(a: &str, b: &str) -> (r: bool)
    ensures
        r == same_ignoring_case(a@, b@),
{
    let x = to_chars(a);
    let y = to_chars(b);
    if x.len() != y.len() {
        return false;
    }
    let mut i: usize = 0;
    while i < x.len()
        invariant
            i <= x.len(),
            x.len() == y.len(),
            x@ == a@,
            y@ == b@,
            forall|j: int| 0 <= j < i ==> folded(x@[j]) == folded(y@[j]),
        decreases x.len() - i,
    {
        if fold_char(x[i]) != fold_char(y[i]) {
            return false;
        }
        i += 1;
    }
    true
}

/// Some name in `c` equals `t` ignoring ASCII case.
pub open spec fn has_ignoring_case(c: Seq<Seq<char>>, t: Seq<char>) -> bool {
    exists|i: int| 0 <= i < c.len() && same_ignoring_case(#[trigger] c[i], t)
}

fn has_name_ignoring_case(c: &Vec<String>, t: &str) -> (r: bool)
    ensures
        r == has_ignoring_case(strings_view(c@), t@),
{
    let ghost cv = strings_view(c@);
    let mut i: usize = 0;
    while i < c.len()
        invariant
            i <= c.len(),
            cv == strings_view(c@),
            forall|j: int| 0 <= j < i ==> !same_ignoring_case(#[trigger] cv[j], t@),
        decreases c.len() - i,
    {
        if eq_ignore_case(c[i].as_str(), t) {
            assert(same_ignoring_case(cv[i as int], t@));
            return true;
        }
        i += 1;
    }
    false
}

/// The chain stops at `hicolor`, whatever its case.
pub fn chain_ends(last: &str) -> (r: bool)
    ensures
        r == same_ignoring_case(last@, "hicolor"@),
{
    eq_ignore_case(last, "hicolor")
}

/// The `Inherits=` line of an `index.theme`: the rest of the first
/// trimmed line that starts with it.
pub open spec fn inherits_line(ls: Seq<Seq<char>>) -> Option<Seq<char>>
    decreases ls.len(),
{
    if ls.len() == 0 {
        None
    } else if starts_with(trim(ls[0]), "Inherits="@) {
        Some(trim(ls[0]).subrange(9, trim(ls[0]).len() as int))
    } else {
        inherits_line(ls.drop_first())
    }
}

/// The themes an `index.theme` inherits: the comma-separated, trimmed,
/// non-blank names of its `Inherits=` line (none without one).
pub open spec fn inherited_of(text: Seq<char>) -> Seq<Seq<char>> {
    match inherits_line(lines(text)) {
        Some(rest) => listed(split_char(rest, ',')),
        None => seq![],
    }
}

pub fn inherits(index_text: &str) -> (r: Vec<String>)
    ensures
        strings_view(r@) == inherited_of(index_text@),
{
    let ls = lines_of(index_text);
    let ghost all = views(ls@);
    let prefix = to_chars("Inherits=");
    proof {
        reveal_strlit("Inherits=");
    }
    assert(prefix.len() == 9);
    let mut i: usize = 0;
    assert(all.subrange(0, all.len() as int) =~= all);
    while i < ls.len()
        invariant
            i <= ls.len(),
            all == views(ls@),
            all == lines(index_text@),
            prefix@ == "Inherits="@,
            prefix.len() == 9,
            inherits_line(all) == inherits_line(all.subrange(i as int, all.len() as int)),
        decreases ls.len() - i,
    {
        let ghost rest = all.subrange(i as int, all.len() as int);
        assert(rest[0] == ls@[i as int]@);
        assert(rest.drop_first() =~= all.subrange(i + 1, all.len() as int));
        let l = trim_chars(&ls[i]);
        if has_prefix(&l, &prefix) {
            let tail = slice_of(&l, 9, l.len());
            let parts = split_on(&tail, ',');
            let ghost pv = views(parts@);
            let mut r: Vec<String> = Vec::new();
            let mut k: usize = 0;
            while k < parts.len()
                invariant
                    k <= parts.len(),
                    pv == views(parts@),
                    strings_view(r@) == listed(pv.subrange(0, k as int)),
                decreases parts.len() - k,
            {
                let t = trim_chars(&parts[k]);
                let ghost before = strings_view(r@);
                assert(pv.subrange(0, k + 1).drop_last() =~= pv.subrange(0, k as int));
                assert(pv.subrange(0, k + 1).last() == parts@[k as int]@);
                if t.len() > 0 {
                    r.push(string_from(&t));
                    assert(strings_view(r@) =~= before.push(t@));
                }
                k += 1;
            }
            assert(pv.subrange(0, parts.len() as int) =~= pv);
            return r;
        }
        i += 1;
    }
    Vec::new()
}

/// The chain after adding `ts` in order, each unless a name equal to it
/// ignoring case is already there.
pub open spec fn extended(c: Seq<Seq<char>>, ts: Seq<Seq<char>>) -> Seq<Seq<char>>
    decreases ts.len(),
{
    if ts.len() == 0 {
        c
    } else {
        let next = if has_ignoring_case(c, ts[0]) {
            c
        } else {
            c.push(ts[0])
        };
        extended(next, ts.drop_first())
    }
}

/// Add the inherited themes to the chain.
pub fn extend_chain(chain: &mut Vec<String>, inherited: &Vec<String>)
    ensures
        strings_view(final(chain)@) == extended(strings_view(old(chain)@), strings_view(inherited@)),
{
    let ghost iv = strings_view(inherited@);
    let ghost c0 = strings_view(chain@);
    let mut i: usize = 0;
    assert(iv.subrange(0, iv.len() as int) =~= iv);
    while i < inherited.len()
        invariant
            i <= inherited.len(),
            iv == strings_view(inherited@),
            extended(c0, iv) == extended(strings_view(chain@), iv.subrange(i as int, iv.len() as int)),
        decreases inherited.len() - i,
    {
        let ghost rest = iv.subrange(i as int, iv.len() as int);
        assert(rest[0] == inherited@[i as int]@);
        assert(rest.drop_first() =~= iv.subrange(i + 1, iv.len() as int));
        let ghost before = strings_view(chain@);
        if !has_name_ignoring_case(chain, inherited[i].as_str()) {
            chain.push(inherited[i].clone());
            assert(strings_view(chain@) =~= before.push(inherited@[i as int]@));
        }
        i += 1;
    }
    assert(iv.subrange(inherited.len() as int, iv.len() as int) =~= Seq::<Seq<char>>::empty());
}

/// The finished chain always holds `hicolor`.
pub open spec fn closed(c: Seq<Seq<char>>) -> Seq<Seq<char>> {
    if has_ignoring_case(c, "hicolor"@) {
        c
    } else {
        c.push("hicolor"@)
    }
}

pub fn close_chain(chain: &mut Vec<String>)
    ensures
        strings_view(final(chain)@) == closed(strings_view(old(chain)@)),
{
    if !has_name_ignoring_case(chain, "hicolor") {
        let ghost before = strings_view(chain@);
        chain.push(owned("hicolor"));
        assert(strings_view(chain@) =~= before.push("hicolor"@));
    }
}

/// A closed chain ends its search at `hicolor`: some member equals it,
/// ignoring case.
pub proof fn law_chain_reaches_hicolor(c: Seq<Seq<char>>)
    ensures
        has_ignoring_case(closed(c), "hicolor"@),
{
    if !has_ignoring_case(c, "hicolor"@) {
        let d = c.push("hicolor"@);
        assert(same_ignoring_case(d[c.len() as int], "hicolor"@));
    }
}

// ---------------------------------------------------------------------------
// .desktop entries
// ---------------------------------------------------------------------------

/// The fields of a `.desktop` entry that icon lookup uses.
#[derive(Debug, Clone)]
pub struct DesktopInfo {
    pub wmclass: String,
    pub name: String,
    pub icon: String,
}

/// Scan state: inside `[Desktop Entry]`, and the class, name and icon so far.
pub type Scan = (bool, Seq<char>, Seq<char>, Seq<char>);

/// One line of a `.desktop` file: a `[group]` header opens or closes the
/// entry section; inside it, `StartupWMClass=` sets the class (the last
/// one wins) while `Name=` and `Icon=` keep their first non-empty value.
pub open spec fn scan_line(st: Scan, line: Seq<char>) -> Scan {
    let l = trim(line);
    if l.len() > 0 && l[0] == '[' {
        (l == "[Desktop Entry]"@, st.1, st.2, st.3)
    } else if !st.0 {
        st
    } else {
        let k = index_of(l, '=');
        if k >= l.len() {
            st
        } else {
            let key = trim(l.subrange(0, k));
            let v = trim(l.subrange(k + 1, l.len() as int));
            if key == "StartupWMClass"@ {
                (st.0, v, st.2, st.3)
            } else if key == "Name"@ {
                if st.2.len() == 0 {
                    (st.0, st.1, v, st.3)
                } else {
                    st
                }
            } else if key == "Icon"@ {
                if st.3.len() == 0 {
                    (st.0, st.1, st.2, v)
                } else {
                    st
                }
            } else {
                st
            }
        }
    }
}

pub open spec fn scan_lines(ls: Seq<Seq<char>>) -> Scan
    decreases ls.len(),
{
    if ls.len() == 0 {
        (false, seq![], seq![], seq![])
    } else {
        scan_line(scan_lines(ls.drop_last()), ls.last())
    }
}

/// A `.desktop` file's `(class, name, icon)`; `None` when it names no icon.
pub open spec fn desktop_of(text: Seq<char>) -> Option<(Seq<char>, Seq<char>, Seq<char>)> {
    let st = scan_lines(lines(text));
    if st.3.len() == 0 {
        None
    } else {
        Some((st.1, st.2, st.3))
    }
}

fn index_in(v: &Vec<char>, c: char) -> (r: usize)
    ensures
        r == index_of(v@, c),
{
    proof {
        lemma_index_of_bounds(v@, c);
    }
    let mut i: usize = 0;
    while i < v.len() && v[i] != c
        invariant
            i <= v.len(),
            forall|j: int| 0 <= j < i ==> v@[j] != c,
            0 <= index_of(v@, c) <= v.len(),
            index_of(v@, c) < v.len() ==> v@[index_of(v@, c)] == c,
            forall|k: int| 0 <= k < index_of(v@, c) ==> v@[k] != c,
        decreases v.len() - i,
    {
        i += 1;
    }
    i
}

fn is_lit(v: &Vec<char>, lit: &str) -> (r: bool)
    ensures
        r == (v@ == lit@),
{
    let l = to_chars(lit);
    crate::text::chars_eq(v, &l)
}

/// Read a `.desktop` file (see `desktop_of`).
pub fn parse_desktop(text: &str) -> (r: Option<DesktopInfo>)
    ensures
        match r {
            Some(d) => desktop_of(text@) == Some((d.wmclass@, d.name@, d.icon@)),
            None => desktop_of(text@) is None,
        },
{
    let ls = lines_of(text);
    let ghost all = views(ls@);
    let mut in_entry = false;
    let mut wmclass: Vec<char> = Vec::new();
    let mut name: Vec<char> = Vec::new();
    let mut icon: Vec<char> = Vec::new();
    let mut i: usize = 0;
    while i < ls.len()
        invariant
            i <= ls.len(),
            all == views(ls@),
            scan_lines(all.subrange(0, i as int)) == (in_entry, wmclass@, name@, icon@),
        decreases ls.len() - i,
    {
        assert(all.subrange(0, i + 1).drop_last() =~= all.subrange(0, i as int));
        assert(all.subrange(0, i + 1).last() == ls@[i as int]@);
        let l = trim_chars(&ls[i]);
        if l.len() > 0 && l[0] == '[' {
            in_entry = is_lit(&l, "[Desktop Entry]");
        } else if in_entry {
            let k = index_in(&l, '=');
            if k < l.len() {
                let kp = slice_of(&l, 0, k);
                let vp = slice_of(&l, k + 1, l.len());
                let key = trim_chars(&kp);
                let v = trim_chars(&vp);
                if is_lit(&key, "StartupWMClass") {
                    wmclass = v;
                } else if is_lit(&key, "Name") {
                    if name.len() == 0 {
                        name = v;
                    }
                } else if is_lit(&key, "Icon") {
                    if icon.len() == 0 {
                        icon = v;
                    }
                }
            }
        }
        i += 1;
    }
    assert(all.subrange(0, ls.len() as int) =~= all);
    if icon.len() == 0 {
        None
    } else {
        Some(DesktopInfo { wmclass: string_from(&wmclass), name: string_from(&name), icon: string_from(&icon) })
    }
}

/// What follows the last `.` (`rsplit('.').next()`), all of `s` without one.
pub open spec fn last_piece(s: Seq<char>) -> Seq<char> {
    split_char(s, '.').last()
}

fn last_piece_of(v: &Vec<char>) -> (r: Vec<char>)
    ensures
        r@ == last_piece(v@),
{
    let parts = split_on(v, '.');
    proof {
        crate::text::lemma_split_nonempty(v@, '.');
    }
    assert(views(parts@).last() == parts@[parts.len() - 1]@);
    let last = &parts[parts.len() - 1];
    let mut r: Vec<char> = Vec::new();
    let mut k: usize = 0;
    while k < last.len()
        invariant
            k <= last.len(),
            r@ == last@.subrange(0, k as int),
        decreases last.len() - k,
    {
        r.push(last[k]);
        assert(r@ =~= last@.subrange(0, k + 1));
        k += 1;
    }
    assert(last@.subrange(0, last.len() as int) =~= last@);
    r
}

/// The search for the `.desktop` entry of a WM class: an entry whose
/// `StartupWMClass` matches (ignoring case) wins at once; else the first
/// entry whose file stem is the class or its last dotted part, else the
/// first whose name matches.
pub struct IconSearch {
    pub low: String,
    pub short: String,
    pub stem_hit: Option<String>,
    pub name_hit: Option<String>,
}

impl IconSearch {
    pub fn new(class: &str) -> (r: IconSearch)
        ensures
            r.low@ == lowercase(class@),
            r.short@ == last_piece(lowercase(class@)),
            r.stem_hit is None,
            r.name_hit is None,
    {
        let low = to_lower(class);
        let short = last_piece_of(&low);
        IconSearch { low: string_from(&low), short: string_from(&short), stem_hit: None, name_hit: None }
    }

    /// Offer the entry read from the file with stem `stem`: `Some(icon)`
    /// when its class matches, else the hits are updated.
    pub fn offer(&mut self, stem: &str, info: &DesktopInfo) -> (r: Option<String>)
        ensures
            final(self).low == old(self).low,
            final(self).short == old(self).short,
            r is Some == (info.wmclass@.len() > 0 && lowercase(info.wmclass@) == old(self).low@),
            r is Some ==> r->0@ == info.icon@ && *final(self) == *old(self),
            r is None ==> opt_view(final(self).stem_hit) == (if old(self).stem_hit is None && (
            lowercase(stem@) == old(self).low@ || lowercase(stem@) == old(self).short@) {
                Some(info.icon@)
            } else {
                opt_view(old(self).stem_hit)
            }),
            r is None ==> opt_view(final(self).name_hit) == (if old(self).name_hit is None
                && lowercase(info.name@) == old(self).low@ {
                Some(info.icon@)
            } else {
                opt_view(old(self).name_hit)
            }),
    {
        let low = to_chars(self.low.as_str());
        let wcv = to_chars(info.wmclass.as_str());
        if wcv.len() > 0 {
            let wc = to_lower(info.wmclass.as_str());
            if crate::text::chars_eq(&wc, &low) {
                return Some(info.icon.clone());
            }
        }
        let st = to_lower(stem);
        let short = to_chars(self.short.as_str());
        if self.stem_hit.is_none() && (crate::text::chars_eq(&st, &low) || crate::text::chars_eq(&st, &short)) {
            self.stem_hit = Some(info.icon.clone());
        }
        let nm = to_lower(info.name.as_str());
        if self.name_hit.is_none() && crate::text::chars_eq(&nm, &low) {
            self.name_hit = Some(info.icon.clone());
        }
        None
    }

    /// The icon found without a class match: stem hit, else name hit.
    pub fn found(&self) -> (r: Option<String>)
        ensures
            opt_view(r) == (if self.stem_hit is Some {
                opt_view(self.stem_hit)
            } else {
                opt_view(self.name_hit)
            }),
    {
        match &self.stem_hit {
            Some(s) => Some(s.clone()),
            None => match &self.name_hit {
                Some(n) => Some(n.clone()),
                None => None,
            },
        }
    }
}


// ---------------------------------------------------------------------------
// icon files
// ---------------------------------------------------------------------------

/// Preference of an icon size directory, lower is better.
pub open spec fn size_rank_of(dir: Seq<char>) -> int {
    if dir == "48x48"@ {
        0
    } else if dir == "32x32"@ {
        1
    } else if dir == "64x64"@ {
        2
    } else if dir == "24x24"@ {
        3
    } else if dir == "scalable"@ {
        4
    } else if dir == "22x22"@ {
        5
    } else if dir == "16x16"@ {
        6
    } else if dir == "symbolic"@ {
        7
    } else if crate::text::ends_with(dir, "x48"@) || crate::text::ends_with(dir, "x32"@) {
        2
    } else {
        8
    }
}

pub fn size_rank(dir: &str) -> (r: i32)
    ensures
        r == size_rank_of(dir@),
{
    if str_eq(dir, "48x48") {
        0
    } else if str_eq(dir, "32x32") {
        1
    } else if str_eq(dir, "64x64") {
        2
    } else if str_eq(dir, "24x24") {
        3
    } else if str_eq(dir, "scalable") {
        4
    } else if str_eq(dir, "22x22") {
        5
    } else if str_eq(dir, "16x16") {
        6
    } else if str_eq(dir, "symbolic") {
        7
    } else {
        let v = to_chars(dir);
        let a = to_chars("x48");
        let b = to_chars("x32");
        if crate::text::has_suffix(&v, &a) || crate::text::has_suffix(&v, &b) {
            2
        } else {
            8
        }
    }
}

/// Preference of an image format, lower is better.
pub open spec fn ext_rank_of(ext: Seq<char>) -> int {
    if ext == "png"@ {
        0
    } else if ext == "svg"@ {
        1
    } else if ext == "xpm"@ {
        2
    } else {
        9
    }
}

pub fn ext_rank(ext: &str) -> (r: i32)
    ensures
        r == ext_rank_of(ext@),
{
    if str_eq(ext, "png") {
        0
    } else if str_eq(ext, "svg") {
        1
    } else if str_eq(ext, "xpm") {
        2
    } else {
        9
    }
}

/// Icon names tried for `name`: itself, without an `org.gnome.`, `com.`
/// or `io.` prefix, and its last dotted part.
pub open spec fn raw_candidates(name: Seq<char>) -> Seq<Seq<char>> {
    let a = seq![name];
    let b = if starts_with(name, "org.gnome."@) {
        a.push(name.subrange(10, name.len() as int))
    } else {
        a
    };
    let c = if starts_with(name, "com."@) {
        b.push(name.subrange(4, name.len() as int))
    } else {
        b
    };
    let d = if starts_with(name, "io."@) {
        c.push(name.subrange(3, name.len() as int))
    } else {
        c
    };
    if name.contains('.') {
        d.push(last_piece(name))
    } else {
        d
    }
}

/// The first occurrence of each element, in order.
pub open spec fn dedup_first(s: Seq<Seq<char>>) -> Seq<Seq<char>>
    decreases s.len(),
{
    if s.len() == 0 {
        seq![]
    } else {
        let d = dedup_first(s.drop_last());
        if d.contains(s.last()) {
            d
        } else {
            d.push(s.last())
        }
    }
}

fn push_new(d: &mut Vec<String>, x: Vec<char>)
    ensures
        strings_view(final(d)@) == (if strings_view(old(d)@).contains(x@) {
            strings_view(old(d)@)
        } else {
            strings_view(old(d)@).push(x@)
        }),
{
    let ghost dv = strings_view(d@);
    let mut i: usize = 0;
    while i < d.len()
        invariant
            i <= d.len(),
            dv == strings_view(d@),
            forall|j: int| 0 <= j < i ==> dv[j] != x@,
        decreases d.len() - i,
    {
        let y = to_chars(d[i].as_str());
        if crate::text::chars_eq(&y, &x) {
            assert(dv[i as int] == x@);
            return;
        }
        i += 1;
    }
    d.push(string_from(&x));
    assert(strings_view(d@) =~= dv.push(x@));
}

fn has_dot(v: &Vec<char>) -> (r: bool)
    ensures
        r == v@.contains('.'),
{
    let mut i: usize = 0;
    while i < v.len()
        invariant
            i <= v.len(),
            forall|j: int| 0 <= j < i ==> v@[j] != '.',
        decreases v.len() - i,
    {
        if v[i] == '.' {
            assert(v@[i as int] == '.');
            return true;
        }
        i += 1;
    }
    false
}

/// The names to try for an icon, without repeats.
pub fn icon_candidates(name: &str) -> (r: Vec<String>)
    ensures
        strings_view(r@) == dedup_first(raw_candidates(name@)),
{
    let v = to_chars(name);
    let mut raw: Vec<Vec<char>> = Vec::new();
    raw.push(v.clone());
    let p1 = to_chars("org.gnome.");
    let p2 = to_chars("com.");
    let p3 = to_chars("io.");
    proof {
        reveal_strlit("org.gnome.");
        reveal_strlit("com.");
        reveal_strlit("io.");
    }
    if has_prefix(&v, &p1) {
        raw.push(slice_of(&v, 10, v.len()));
    }
    if has_prefix(&v, &p2) {
        raw.push(slice_of(&v, 4, v.len()));
    }
    if has_prefix(&v, &p3) {
        raw.push(slice_of(&v, 3, v.len()));
    }
    if has_dot(&v) {
        raw.push(last_piece_of(&v));
    }
    assert(views(raw@) =~= raw_candidates(name@));
    let ghost rv = views(raw@);
    let mut d: Vec<String> = Vec::new();
    let mut i: usize = 0;
    while i < raw.len()
        invariant
            i <= raw.len(),
            rv == views(raw@),
            strings_view(d@) == dedup_first(rv.subrange(0, i as int)),
        decreases raw.len() - i,
    {
        assert(rv.subrange(0, i + 1).drop_last() =~= rv.subrange(0, i as int));
        assert(rv.subrange(0, i + 1).last() == raw@[i as int]@);
        push_new(&mut d, raw[i].clone());
        i += 1;
    }
    assert(rv.subrange(0, raw.len() as int) =~= rv);
    d
}

/// Icon size directories in order of preference.
pub open spec fn sizes() -> Seq<Seq<char>> {
    seq!["48x48"@, "32x32"@, "64x64"@, "24x24"@, "scalable"@, "22x22"@, "16x16"@]
}

/// Context directories searched besides the size directories.
pub open spec fn contexts() -> Seq<Seq<char>> {
    seq!["apps"@, "devices"@, "actions"@, "places"@, "status"@]
}

/// The three files of `cand` in `dir` (png, svg, xpm), scored from `base`.
pub open spec fn ext_probes(dir: Seq<char>, cand: Seq<char>, base: int) -> Seq<(int, Seq<char>)> {
    seq![
        (base, crate::text::path_join(dir, cand + ".png"@)),
        (base + 1, crate::text::path_join(dir, cand + ".svg"@)),
        (base + 2, crate::text::path_join(dir, cand + ".xpm"@)),
    ]
}

/// `<tdir>/<size>/apps/<cand>.<ext>` over the preferred sizes.
pub open spec fn sized_probes(tdir: Seq<char>, cand: Seq<char>, ss: Seq<Seq<char>>) -> Seq<
    (int, Seq<char>),
>
    decreases ss.len(),
{
    if ss.len() == 0 {
        seq![]
    } else {
        sized_probes(tdir, cand, ss.drop_last()) + ext_probes(
            crate::text::path_join(crate::text::path_join(tdir, ss.last()), "apps"@),
            cand,
            size_rank_of(ss.last()) * 10,
        )
    }
}

/// The preferred files of a theme directory, candidate by candidate.
pub open spec fn preferred_probes_of(tdir: Seq<char>, cands: Seq<Seq<char>>) -> Seq<
    (int, Seq<char>),
>
    decreases cands.len(),
{
    if cands.len() == 0 {
        seq![]
    } else {
        preferred_probes_of(tdir, cands.drop_last()) + sized_probes(tdir, cands.last(), sizes())
    }
}

fn file_name(cand: &String, ext: &str) -> (r: String)
    ensures
        r@ == cand@ + ext@,
{
    let mut v = to_chars(cand.as_str());
    push_str(&mut v, ext);
    string_from(&v)
}

fn push_ext_probes(out: &mut Vec<(i32, String)>, dir: &String, cand: &String, base: i32)
    requires
        base <= 1000,
    ensures
        probes_view(final(out)@) == probes_view(old(out)@) + ext_probes(dir@, cand@, base as int),
{
    let ghost o0 = probes_view(out@);
    let a = crate::text::join_path(dir.as_str(), file_name(cand, ".png").as_str());
    let b = crate::text::join_path(dir.as_str(), file_name(cand, ".svg").as_str());
    let c = crate::text::join_path(dir.as_str(), file_name(cand, ".xpm").as_str());
    out.push((base, a));
    out.push((base + 1, b));
    out.push((base + 2, c));
    assert(probes_view(out@) =~= o0 + ext_probes(dir@, cand@, base as int));
}

/// Views of scored paths.
pub open spec fn probes_view(v: Seq<(i32, String)>) -> Seq<(int, Seq<char>)> {
    v.map_values(|p: (i32, String)| (p.0 as int, p.1@))
}

fn size_names() -> (r: Vec<String>)
    ensures
        strings_view(r@) == sizes(),
{
    let mut r: Vec<String> = Vec::new();
    r.push(owned("48x48"));
    r.push(owned("32x32"));
    r.push(owned("64x64"));
    r.push(owned("24x24"));
    r.push(owned("scalable"));
    r.push(owned("22x22"));
    r.push(owned("16x16"));
    assert(strings_view(r@) =~= sizes());
    r
}

fn context_names() -> (r: Vec<String>)
    ensures
        strings_view(r@) == contexts(),
{
    let mut r: Vec<String> = Vec::new();
    r.push(owned("apps"));
    r.push(owned("devices"));
    r.push(owned("actions"));
    r.push(owned("places"));
    r.push(owned("status"));
    assert(strings_view(r@) =~= contexts());
    r
}

/// The preferred files of theme directory `tdir` with their scores, in
/// the order they are tried.
pub fn preferred_probes(tdir: &str, cands: &Vec<String>) -> (r: Vec<(i32, String)>)
    ensures
        probes_view(r@) == preferred_probes_of(tdir@, strings_view(cands@)),
{
    let td = owned(tdir);
    let ss = size_names();
    let ghost cv = strings_view(cands@);
    let mut out: Vec<(i32, String)> = Vec::new();
    let mut c: usize = 0;
    while c < cands.len()
        invariant
            c <= cands.len(),
            cv == strings_view(cands@),
            td@ == tdir@,
            strings_view(ss@) == sizes(),
            probes_view(out@) == preferred_probes_of(tdir@, cv.subrange(0, c as int)),
        decreases cands.len() - c,
    {
        let ghost o0 = probes_view(out@);
        let mut k: usize = 0;
        assert(sizes().subrange(0, 0) =~= Seq::<Seq<char>>::empty());
        assert(o0 + sized_probes(tdir@, cv[c as int], sizes().subrange(0, 0)) =~= o0);
        while k < ss.len()
            invariant
                k <= ss.len(),
                c < cands.len(),
                cv == strings_view(cands@),
                td@ == tdir@,
                strings_view(ss@) == sizes(),
                probes_view(out@) == o0 + sized_probes(tdir@, cv[c as int], sizes().subrange(0, k as int)),
            decreases ss.len() - k,
        {
            let r = size_rank(ss[k].as_str());
            let sd = crate::text::join_path(td.as_str(), ss[k].as_str());
            let dir = crate::text::join_path(sd.as_str(), "apps");
            assert(sizes().subrange(0, k + 1).drop_last() =~= sizes().subrange(0, k as int));
            assert(sizes().subrange(0, k + 1).last() == ss@[k as int]@);
            assert(0 <= r <= 8) by {
                assert(r == size_rank_of(ss@[k as int]@));
            }
            push_ext_probes(&mut out, &dir, &cands[c], r * 10);
            assert(probes_view(out@) =~= o0 + sized_probes(tdir@, cv[c as int], sizes().subrange(0, k + 1)));
            k += 1;
        }
        assert(sizes().subrange(0, ss.len() as int) =~= sizes());
        assert(cv.subrange(0, c + 1).drop_last() =~= cv.subrange(0, c as int));
        assert(cv.subrange(0, c + 1).last() == cv[c as int]);
        c += 1;
    }
    assert(cv.subrange(0, cands.len() as int) =~= cv);
    out
}

/// `<tdir>/<sd>/<ctx>/<cand>.<ext>` over the context directories.
pub open spec fn context_probes(dir: Seq<char>, cand: Seq<char>, cs: Seq<Seq<char>>, base: int) -> Seq<
    (int, Seq<char>),
>
    decreases cs.len(),
{
    if cs.len() == 0 {
        seq![]
    } else {
        context_probes(dir, cand, cs.drop_last(), base) + ext_probes(
            crate::text::path_join(dir, cs.last()),
            cand,
            base,
        )
    }
}

/// Fallback files of one theme subdirectory `sd`: in its context
/// directories (scored from 100), then directly in it (from 200).
pub open spec fn subdir_probes_of(tdir: Seq<char>, sd: Seq<char>, cands: Seq<Seq<char>>) -> Seq<
    (int, Seq<char>),
> {
    let dir = crate::text::path_join(tdir, sd);
    ctx_part(dir, cands, 100 + size_rank_of(sd) * 10) + direct_part(
        dir,
        cands,
        200 + size_rank_of(sd) * 10,
    )
}

pub open spec fn ctx_part(dir: Seq<char>, cands: Seq<Seq<char>>, base: int) -> Seq<(int, Seq<char>)>
    decreases cands.len(),
{
    if cands.len() == 0 {
        seq![]
    } else {
        ctx_part(dir, cands.drop_last(), base) + context_probes(dir, cands.last(), contexts(), base)
    }
}

pub open spec fn direct_part(dir: Seq<char>, cands: Seq<Seq<char>>, base: int) -> Seq<
    (int, Seq<char>),
>
    decreases cands.len(),
{
    if cands.len() == 0 {
        seq![]
    } else {
        direct_part(dir, cands.drop_last(), base) + ext_probes(dir, cands.last(), base)
    }
}

/// The fallback files of theme subdirectory `sd` with their scores.
pub fn subdir_probes(tdir: &str, sd: &str, cands: &Vec<String>) -> (r: Vec<(i32, String)>)
    ensures
        probes_view(r@) == subdir_probes_of(tdir@, sd@, strings_view(cands@)),
{
    let dir = crate::text::join_path(tdir, sd);
    let rank = size_rank(sd);
    assert(0 <= rank <= 8);
    let base1 = 100 + rank * 10;
    let base2 = 200 + rank * 10;
    let cs = context_names();
    let ghost cv = strings_view(cands@);
    let mut out: Vec<(i32, String)> = Vec::new();
    let mut c: usize = 0;
    while c < cands.len()
        invariant
            c <= cands.len(),
            cv == strings_view(cands@),
            strings_view(cs@) == contexts(),
            base1 <= 180,
            probes_view(out@) == ctx_part(dir@, cv.subrange(0, c as int), base1 as int),
        decreases cands.len() - c,
    {
        let ghost o0 = probes_view(out@);
        let mut k: usize = 0;
        assert(contexts().subrange(0, 0) =~= Seq::<Seq<char>>::empty());
        assert(o0 + context_probes(dir@, cv[c as int], contexts().subrange(0, 0), base1 as int) =~= o0);
        while k < cs.len()
            invariant
                k <= cs.len(),
                c < cands.len(),
                cv == strings_view(cands@),
                strings_view(cs@) == contexts(),
                base1 <= 180,
                probes_view(out@) == o0 + context_probes(dir@, cv[c as int], contexts().subrange(0, k as int), base1 as int),
            decreases cs.len() - k,
        {
            let cd = crate::text::join_path(dir.as_str(), cs[k].as_str());
            assert(contexts().subrange(0, k + 1).drop_last() =~= contexts().subrange(0, k as int));
            assert(contexts().subrange(0, k + 1).last() == cs@[k as int]@);
            push_ext_probes(&mut out, &cd, &cands[c], base1);
            assert(probes_view(out@) =~= o0 + context_probes(dir@, cv[c as int], contexts().subrange(0, k + 1), base1 as int));
            k += 1;
        }
        assert(contexts().subrange(0, cs.len() as int) =~= contexts());
        assert(cv.subrange(0, c + 1).drop_last() =~= cv.subrange(0, c as int));
        assert(cv.subrange(0, c + 1).last() == cv[c as int]);
        c += 1;
    }
    assert(cv.subrange(0, cands.len() as int) =~= cv);
    let ghost first = probes_view(out@);
    let mut c: usize = 0;
    assert(cv.subrange(0, 0) =~= Seq::<Seq<char>>::empty());
    assert(first + direct_part(dir@, cv.subrange(0, 0), base2 as int) =~= first);
    while c < cands.len()
        invariant
            c <= cands.len(),
            cv == strings_view(cands@),
            base2 <= 280,
            probes_view(out@) == first + direct_part(dir@, cv.subrange(0, c as int), base2 as int),
        decreases cands.len() - c,
    {
        let ghost o0 = probes_view(out@);
        push_ext_probes(&mut out, &dir, &cands[c], base2);
        assert(cv.subrange(0, c + 1).drop_last() =~= cv.subrange(0, c as int));
        assert(cv.subrange(0, c + 1).last() == cv[c as int]);
        assert(probes_view(out@) =~= first + direct_part(dir@, cv.subrange(0, c + 1), base2 as int));
        c += 1;
    }
    assert(cv.subrange(0, cands.len() as int) =~= cv);
    out
}

/// `/usr/share/pixmaps/<cand>.<ext>`, the last resort, in order.
pub open spec fn pixmap_probes_of(cands: Seq<Seq<char>>) -> Seq<(int, Seq<char>)>
    decreases cands.len(),
{
    if cands.len() == 0 {
        seq![]
    } else {
        pixmap_probes_of(cands.drop_last()) + ext_probes("/usr/share/pixmaps"@, cands.last(), 0)
    }
}

pub fn pixmap_probes(cands: &Vec<String>) -> (r: Vec<(i32, String)>)
    ensures
        probes_view(r@) == pixmap_probes_of(strings_view(cands@)),
{
    let dir = owned("/usr/share/pixmaps");
    let ghost cv = strings_view(cands@);
    let mut out: Vec<(i32, String)> = Vec::new();
    let mut c: usize = 0;
    assert(cv.subrange(0, 0) =~= Seq::<Seq<char>>::empty());
    while c < cands.len()
        invariant
            c <= cands.len(),
            cv == strings_view(cands@),
            dir@ == "/usr/share/pixmaps"@,
            probes_view(out@) == pixmap_probes_of(cv.subrange(0, c as int)),
        decreases cands.len() - c,
    {
        push_ext_probes(&mut out, &dir, &cands[c], 0);
        assert(cv.subrange(0, c + 1).drop_last() =~= cv.subrange(0, c as int));
        assert(cv.subrange(0, c + 1).last() == cv[c as int]);
        c += 1;
    }
    assert(cv.subrange(0, cands.len() as int) =~= cv);
    out
}

/// Keep the better of the best so far and an offered file: the offer
/// wins when the file exists and scores strictly lower (or nothing was
/// found yet).
pub open spec fn considered(best: Option<(int, Seq<char>)>, score: int, path: Seq<char>, exists: bool) -> Option<
    (int, Seq<char>),
> {
    if exists && (best is None || score < (best->0).0) {
        Some((score, path))
    } else {
        best
    }
}

pub open spec fn best_view(b: Option<(i32, String)>) -> Option<(int, Seq<char>)> {
    match b {
        Some(p) => Some((p.0 as int, p.1@)),
        None => None,
    }
}

pub fn consider(best: &mut Option<(i32, String)>, score: i32, path: String, exists: bool)
    ensures
        best_view(*final(best)) == considered(best_view(*old(best)), score as int, path@, exists),
{
    let better = match best {
        Some(b) => score < b.0,
        None => true,
    };
    if exists && better {
        *best = Some((score, path));
    }
}

/// The best of offered `(score, path, exists)` files, offered in order.
pub open spec fn best_of(offers: Seq<(int, Seq<char>, bool)>) -> Option<(int, Seq<char>)>
    decreases offers.len(),
{
    if offers.len() == 0 {
        None
    } else {
        let o = offers.last();
        considered(best_of(offers.drop_last()), o.0, o.1, o.2)
    }
}

/// Offer `i` exists, no existing offer scores lower, and none before it
/// scores the same.
pub open spec fn first_lowest(offers: Seq<(int, Seq<char>, bool)>, i: int) -> bool {
    &&& 0 <= i < offers.len()
    &&& offers[i].2
    &&& forall|j: int| 0 <= j < offers.len() && (#[trigger] offers[j]).2 ==> offers[i].0 <= offers[j].0
    &&& forall|j: int| 0 <= j < i && (#[trigger] offers[j]).2 ==> offers[i].0 < offers[j].0
}

/// Offering files one by one keeps the first existing file of lowest
/// score: none when no offered file exists, else that one.
pub proof fn law_best_is_first_lowest(offers: Seq<(int, Seq<char>, bool)>)
    ensures
        best_of(offers) is None <==> (forall|j: int| 0 <= j < offers.len() ==> !(#[trigger] offers[j]).2),
        best_of(offers) is Some ==> exists|i: int|
            #[trigger] first_lowest(offers, i) && (offers[i].0, offers[i].1) == best_of(offers)->0,
    decreases offers.len(),
{
    if offers.len() > 0 {
        let pre = offers.drop_last();
        law_best_is_first_lowest(pre);
        let o = offers.last();
        let n = offers.len() - 1;
        assert forall|j: int| 0 <= j < pre.len() implies #[trigger] pre[j] == offers[j] by {}
        if best_of(pre) is Some {
            let i = choose|i: int| #[trigger] first_lowest(pre, i) && (pre[i].0, pre[i].1) == best_of(pre)->0;
            if o.2 && o.0 < (best_of(pre)->0).0 {
                assert forall|j: int| 0 <= j < offers.len() && (#[trigger] offers[j]).2 implies offers[n].0 <= offers[j].0 by {
                    if j < n {
                        assert(pre[j].2);
                    }
                }
                assert forall|j: int| 0 <= j < n && (#[trigger] offers[j]).2 implies offers[n].0 < offers[j].0 by {
                    assert(pre[j].2);
                }
                assert(first_lowest(offers, n));
            } else {
                assert(offers[i] == pre[i]);
                assert forall|j: int| 0 <= j < offers.len() && (#[trigger] offers[j]).2 implies offers[i].0 <= offers[j].0 by {
                    if j < n {
                        assert(pre[j].2);
                    }
                }
                assert forall|j: int| 0 <= j < i && (#[trigger] offers[j]).2 implies offers[i].0 < offers[j].0 by {
                    assert(pre[j].2);
                }
                assert(first_lowest(offers, i));
            }
        } else {
            if o.2 {
                assert forall|j: int| 0 <= j < offers.len() && (#[trigger] offers[j]).2 implies offers[n].0 <= offers[j].0 by {
                    if j < n {
                        assert(pre[j].2);
                    }
                }
                assert forall|j: int| 0 <= j < n && (#[trigger] offers[j]).2 implies offers[n].0 < offers[j].0 by {
                    assert(pre[j].2);
                }
                assert(first_lowest(offers, n));
            } else {
                assert forall|j: int| 0 <= j < offers.len() implies !(#[trigger] offers[j]).2 by {
                    if j < n {
                        assert(!pre[j].2);
                    }
                }
            }
        }
    }
}

// ---------------------------------------------------------------------------
// rasterizing
// ---------------------------------------------------------------------------

/// The cache file name of an icon: ASCII letters, digits, `-` and `_`
/// kept, anything else `_`.
pub open spec fn safe_char(c: char) -> char {
    if ('a' <= c <= 'z') || ('A' <= c <= 'Z') || ('0' <= c <= '9') || c == '-' || c == '_' {
        c
    } else {
        '_'
    }
}

pub open spec fn safe_name_of(name: Seq<char>) -> Seq<char> {
    Seq::new(name.len(), |i: int| safe_char(name[i]))
}

/// `<cache dir>/<safe name>.png`.
pub fn cached_png(cache_dir: &str, name: &str) -> (r: String)
    ensures
        r@ == crate::text::path_join(cache_dir@, safe_name_of(name@) + ".png"@),
{
    let v = to_chars(name);
    let mut s: Vec<char> = Vec::new();
    let mut i: usize = 0;
    while i < v.len()
        invariant
            i <= v.len(),
            s@ == safe_name_of(v@.subrange(0, i as int)),
        decreases v.len() - i,
    {
        let c = v[i];
        let k = if ('a' <= c && c <= 'z') || ('A' <= c && c <= 'Z') || ('0' <= c && c <= '9')
            || c == '-' || c == '_' {
            c
        } else {
            '_'
        };
        s.push(k);
        assert(s@ =~= safe_name_of(v@.subrange(0, i + 1)));
        i += 1;
    }
    assert(v@.subrange(0, v.len() as int) =~= v@);
    push_str(&mut s, ".png");
    let f = string_from(&s);
    crate::text::join_path(cache_dir, f.as_str())
}

/// How an icon file becomes a PNG cairo can read.
#[derive(Debug, Clone, Copy, PartialEq, Eq)]
pub enum Raster {
    /// it is a PNG already
    Direct,
    /// `rsvg-convert -w 96 -h 96 -o <png> <svg>`
    Svg,
    /// ImageMagick `convert <src> <png>`
    Convert,
}

/// By the file's extension, in any case.
pub open spec fn raster_of(ext: Seq<char>) -> Raster {
    if lowercase(ext) == "png"@ {
        Raster::Direct
    } else if lowercase(ext) == "svg"@ {
        Raster::Svg
    } else {
        Raster::Convert
    }
}

pub fn raster_kind(ext: &str) -> (r: Raster)
    ensures
        r == raster_of(ext@),
{
    let l = to_lower(ext);
    let png = to_chars("png");
    let svg = to_chars("svg");
    if crate::text::chars_eq(&l, &png) {
        Raster::Direct
    } else if crate::text::chars_eq(&l, &svg) {
        Raster::Svg
    } else {
        Raster::Convert
    }
}

/// The converter command for `src` into `dst`.
pub open spec fn raster_argv(kind: Raster, src: Seq<char>, dst: Seq<char>) -> Seq<Seq<char>> {
    match kind {
        Raster::Svg => seq!["rsvg-convert"@, "-w"@, "96"@, "-h"@, "96"@, "-o"@, dst, src],
        _ => seq!["convert"@, src, dst],
    }
}

pub fn raster_command(kind: Raster, src: &str, dst: &str) -> (r: Vec<String>)
    ensures
        strings_view(r@) == raster_argv(kind, src@, dst@),
{
    let mut r: Vec<String> = Vec::new();
    match kind {
        Raster::Svg => {
            r.push(owned("rsvg-convert"));
            r.push(owned("-w"));
            r.push(owned("96"));
            r.push(owned("-h"));
            r.push(owned("96"));
            r.push(owned("-o"));
            r.push(owned(dst));
            r.push(owned(src));
        },
        _ => {
            r.push(owned("convert"));
            r.push(owned(src));
            r.push(owned(dst));
        },
    }
    assert(strings_view(r@) =~= raster_argv(kind, src@, dst@));
    r
}


// ---------------------------------------------------------------------------
// solved classes
// ---------------------------------------------------------------------------

/// The icon files found so far, by lowercased WM class (`None`: the class
/// has no icon). A class is solved once.
pub struct IconMemo {
    entries: Vec<(String, Option<String>)>,
}

pub open spec fn memo_map(s: Seq<(String, Option<String>)>) -> Map<Seq<char>, Option<Seq<char>>>
    decreases s.len(),
{
    if s.len() == 0 {
        Map::empty()
    } else {
        memo_map(s.drop_last()).insert(s.last().0@, opt_view(s.last().1))
    }
}

impl View for IconMemo {
    type V = Map<Seq<char>, Option<Seq<char>>>;

    closed spec fn view(&self) -> Map<Seq<char>, Option<Seq<char>>> {
        memo_map(self.entries@)
    }
}

impl IconMemo {
    pub fn new() -> (r: IconMemo)
        ensures
            r@ == Map::<Seq<char>, Option<Seq<char>>>::empty(),
    {
        IconMemo { entries: Vec::new() }
    }

    /// What was found for `class` (any case), if it was solved.
    pub fn solved(&self, class: &str) -> (r: Option<Option<String>>)
        ensures
            match r {
                Some(p) => self@.contains_key(lowercase(class@)) && self@[lowercase(class@)]
                    == opt_view(p),
                None => !self@.contains_key(lowercase(class@)),
            },
    {
        let key = to_lower(class);
        let ghost all = self.entries@;
        let mut i = self.entries.len();
        assert(all.subrange(0, i as int) =~= all);
        while i > 0
            invariant
                i <= self.entries.len(),
                all == self.entries@,
                key@ == lowercase(class@),
                memo_map(all).contains_key(key@) == memo_map(all.subrange(0, i as int)).contains_key(key@),
                memo_map(all).contains_key(key@) ==> memo_map(all)[key@] == memo_map(
                    all.subrange(0, i as int),
                )[key@],
            decreases i,
        {
            let name = to_chars(self.entries[i - 1].0.as_str());
            assert(all.subrange(0, i as int).drop_last() =~= all.subrange(0, i - 1));
            assert(all.subrange(0, i as int).last() == all[i - 1]);
            if crate::text::chars_eq(&name, &key) {
                let p = match &self.entries[i - 1].1 {
                    Some(x) => Some(x.clone()),
                    None => None,
                };
                assert(opt_view(p) == opt_view(all[i - 1].1));
                assert(memo_map(all.subrange(0, i as int)) == memo_map(all.subrange(0, i - 1)).insert(
                    key@,
                    opt_view(all[i - 1].1),
                ));
                assert(self@ == memo_map(all));
                return Some(p);
            }
            i -= 1;
        }
        assert(all.subrange(0, 0) =~= Seq::<(String, Option<String>)>::empty());
        None
    }

    /// Record what was found for `class`; a later `solved` of it (in any
    /// case) gives it back.
    pub fn remember(&mut self, class: &str, path: Option<String>)
        ensures
            final(self)@ == old(self)@.insert(lowercase(class@), opt_view(path)),
    {
        let key = to_lower(class);
        let ghost before = self.entries@;
        self.entries.push((string_from(&key), path));
        assert(self.entries@.drop_last() =~= before);
    }
}


} // verus!
