//! Hyprland IPC: the requests the bar sends over `.socket.sock` and how it
//! reads the JSON replies and the `.socket2.sock` event lines.
//!
//! The sockets themselves are opened by the daemon.
use vstd::prelude::*;
use crate::json::{as_i64, as_str, bool_of, get, int_of, json_of, member, parse_json, str_of, Json};
use crate::text::{
    before_first, contains, first_occ, includes, int_chars, int_dec, lines, lines_of, owned,
    parse_i32, parse_i32_chars, piece_before, push_all, push_str, slice_of, str_eq, string_from,
    to_chars, trim, trim_chars, views, find,
};

verus! {

#[derive(Debug, Clone, Copy, PartialEq, Eq, Structural)]
pub struct WsInfo {
    pub id: i32,
    pub windows: i32,
}

#[derive(Debug, Clone)]
pub struct Client {
    pub ws_id: i32,
    pub class: String,
    pub title: String,
}

pub open spec fn or_i64(v: Option<i64>, d: i64) -> i64 {
    match v {
        Some(x) => x,
        None => d,
    }
}

/// The focused workspace in a parsed `j/activeworkspace` reply: its `id`,
/// or 1 when the reply or the id is unreadable.
pub open spec fn active_in(v: Option<Json>) -> i32 {
    match v {
        Some(v) => or_i64(as_i64(member(v, "id"@)), 1) as i32,
        None => 1,
    }
}

/// The focused workspace from `j/activeworkspace` (1 when unreadable).
pub open spec fn active_of(reply: Seq<char>) -> i32 {
    active_in(json_of(reply))
}

/// The focused workspace in a parsed `j/activeworkspace` reply.
pub fn active_from(v: &Option<Json>) -> (r: i32)
    ensures
        r == active_in(*v),
{
    match v {
        Some(v) => {
            let n = match int_of(get(v, "id")) {
                Some(x) => x,
                None => 1,
            };
            n as i32
        },
        None => 1,
    }
}

pub fn active_workspace(reply: &str) -> (r: i32)
    ensures
        r == active_of(reply@),
{
    active_from(&parse_json(reply))
}

/// One workspace entry of `j/workspaces`: id 1 and no windows by default.
pub open spec fn ws_of(e: Json) -> WsInfo {
    WsInfo {
        id: or_i64(as_i64(member(e, "id"@)), 1) as i32,
        windows: or_i64(as_i64(member(e, "windows"@)), 0) as i32,
    }
}

/// Workspaces listed by a parsed `j/workspaces` reply; at least
/// workspace 1.
pub open spec fn workspaces_in(v: Option<Json>) -> Seq<WsInfo> {
    let found = match v {
        Some(Json::Array(a)) => a@.map_values(|e: Json| ws_of(e)),
        _ => seq![],
    };
    if found.len() == 0 {
        seq![WsInfo { id: 1, windows: 1 }]
    } else {
        found
    }
}

/// Workspaces listed by `j/workspaces`; at least workspace 1.
pub open spec fn workspaces_of(reply: Seq<char>) -> Seq<WsInfo> {
    workspaces_in(json_of(reply))
}

fn ws_entry(e: &Json) -> (r: WsInfo)
    ensures
        r == ws_of(*e),
{
    let id = match int_of(get(e, "id")) {
        Some(x) => x,
        None => 1,
    };
    let windows = match int_of(get(e, "windows")) {
        Some(x) => x,
        None => 0,
    };
    WsInfo { id: id as i32, windows: windows as i32 }
}

/// The workspaces in a parsed `j/workspaces` reply.
pub fn workspaces_from(parsed: &Option<Json>) -> (r: Vec<WsInfo>)
    ensures
        r@ == workspaces_in(*parsed),
{
    let mut out: Vec<WsInfo> = Vec::new();
    if let Some(Json::Array(a)) = parsed {
        let mut i: usize = 0;
        while i < a.len()
            invariant
                i <= a.len(),
                out@ == a@.subrange(0, i as int).map_values(|e: Json| ws_of(e)),
            decreases a.len() - i,
        {
            out.push(ws_entry(&a[i]));
            i += 1;
            assert(out@ =~= a@.subrange(0, i as int).map_values(|e: Json| ws_of(e)));
        }
        assert(a@.subrange(0, a.len() as int) =~= a@);
    }
    if out.len() == 0 {
        out.push(WsInfo { id: 1, windows: 1 });
    }
    assert(out@ =~= workspaces_in(*parsed));
    out
}

pub fn workspaces(reply: &str) -> (r: Vec<WsInfo>)
    ensures
        r@ == workspaces_of(reply@),
{
    workspaces_from(&parse_json(reply))
}

pub struct ClientView {
    pub ws_id: i32,
    pub class: Seq<char>,
    pub title: Seq<char>,
}

impl View for Client {
    type V = ClientView;

    open spec fn view(&self) -> ClientView {
        ClientView { ws_id: self.ws_id, class: self.class@, title: self.title@ }
    }
}

pub open spec fn or_str(v: Option<Seq<char>>) -> Seq<char> {
    match v {
        Some(s) => s,
        None => seq![],
    }
}

/// One window of `j/clients`: its workspace id (0 when missing), class and
/// title ("" when missing).
pub open spec fn client_of(e: Json) -> ClientView {
    ClientView {
        ws_id: or_i64(
            as_i64(
                match member(e, "workspace"@) {
                    Some(w) => member(w, "id"@),
                    None => None,
                },
            ),
            0,
        ) as i32,
        class: or_str(as_str(member(e, "class"@))),
        title: or_str(as_str(member(e, "title"@))),
    }
}

pub open spec fn clients_view(s: Seq<Client>) -> Seq<ClientView> {
    s.map_values(|c: Client| c@)
}

pub open spec fn clients_in(a: Seq<Json>) -> Seq<ClientView> {
    a.map_values(|e: Json| client_of(e))
}

/// Windows listed by a parsed `j/clients` reply, in order (none when it
/// is not an array).
pub open spec fn clients_from_json(v: Option<Json>) -> Seq<ClientView> {
    match v {
        Some(Json::Array(a)) => clients_in(a@),
        _ => seq![],
    }
}

pub open spec fn clients_of(reply: Seq<char>) -> Seq<ClientView> {
    clients_from_json(json_of(reply))
}

fn text_or_empty(v: Option<&String>) -> (r: String)
    ensures
        r@ == (match v {
            Some(s) => s@,
            None => seq![],
        }),
{
    match v {
        Some(s) => s.clone(),
        None => String::new(),
    }
}

fn client_entry(e: &Json) -> (r: Client)
    ensures
        r@ == client_of(*e),
{
    let w = get(e, "workspace");
    let id = match w {
        Some(wv) => int_of(get(wv, "id")),
        None => None,
    };
    let ws = match id {
        Some(x) => x,
        None => 0,
    };
    let class = text_or_empty(str_of(get(e, "class")));
    let title = text_or_empty(str_of(get(e, "title")));
    Client { ws_id: ws as i32, class, title }
}

/// Windows listed by a parsed `j/clients` reply, in order.
pub fn clients_from(parsed: &Option<Json>) -> (r: Vec<Client>)
    ensures
        clients_view(r@) == clients_from_json(*parsed),
{
    let mut out: Vec<Client> = Vec::new();
    if let Some(Json::Array(a)) = parsed {
        let mut i: usize = 0;
        while i < a.len()
            invariant
                i <= a.len(),
                clients_view(out@) == clients_in(a@.subrange(0, i as int)),
            decreases a.len() - i,
        {
            let c = client_entry(&a[i]);
            let ghost before = out@;
            out.push(c);
            assert(clients_view(out@) =~= clients_view(before).push(c@));
            assert(clients_in(a@.subrange(0, i + 1)) =~= clients_in(a@.subrange(0, i as int)).push(
                client_of(a@[i as int]),
            ));
            i += 1;
        }
        assert(a@.subrange(0, a.len() as int) =~= a@);
    }
    assert(clients_view(out@) =~= clients_from_json(*parsed));
    out
}

/// Windows listed by `j/clients`, in order.
pub fn clients(reply: &str) -> (r: Vec<Client>)
    ensures
        clients_view(r@) == clients_of(reply@),
{
    clients_from(&parse_json(reply))
}

/// The request that focuses workspace `n`.
pub fn focus_workspace(n: i32) -> (cmd: String)
    ensures
        cmd@ == "dispatch hl.dsp.focus({ workspace = \""@ + int_dec(n as int) + "\" })"@,
{
    let mut v = to_chars("dispatch hl.dsp.focus({ workspace = \"");
    let d = int_chars(n as i64);
    push_all(&mut v, &d);
    push_str(&mut v, "\" })");
    string_from(&v)
}

/// The first line of a reply, trimmed ("" for an empty reply).
pub open spec fn first_line_of(reply: Seq<char>) -> Seq<char> {
    if lines(reply).len() > 0 {
        trim(lines(reply)[0])
    } else {
        seq![]
    }
}

pub fn first_line(reply: &str) -> (r: String)
    ensures
        r@ == first_line_of(reply@),
{
    let ls = lines_of(reply);
    if ls.len() > 0 {
        assert(views(ls@)[0] == ls@[0]@);
        let t = trim_chars(&ls[0]);
        string_from(&t)
    } else {
        String::new()
    }
}

/// What an event line of `.socket2.sock` asks of the bar.
#[derive(Debug, Clone, Copy, PartialEq, Eq, Structural)]
pub enum HyprEvent {
    /// focus moved; the new workspace id when it parses
    Workspace(Option<i32>),
    /// windows changed: redraw
    Redraw,
    /// nothing for the bar
    Other,
}

/// Name and payload of `name>>payload` (payload "" without `>>`).
pub open spec fn event_name(line: Seq<char>) -> Seq<char> {
    before_first(trim(line), ">>"@)
}

pub open spec fn event_payload(line: Seq<char>) -> Seq<char> {
    let t = trim(line);
    if contains(t, ">>"@) {
        t.subrange(first_occ(t, ">>"@) + ">>"@.len(), t.len() as int)
    } else {
        seq![]
    }
}

pub open spec fn redraw_event(name: Seq<char>) -> bool {
    name == "openwindow"@ || name == "closewindow"@ || name == "movewindow"@ || name
        == "activewindow"@ || name == "activespecial"@ || name == "fullscreen"@ || name
        == "changefloatingmode"@
}

pub open spec fn event_of(line: Seq<char>) -> HyprEvent {
    let name = event_name(line);
    if name == "workspace"@ {
        HyprEvent::Workspace(parse_i32(event_payload(line)))
    } else if redraw_event(name) {
        HyprEvent::Redraw
    } else {
        HyprEvent::Other
    }
}

pub fn parse_event(line: &str) -> (r: HyprEvent)
    ensures
        r == event_of(line@),
{
    let v = to_chars(line);
    let t = trim_chars(&v);
    let sep = to_chars(">>");
    let name = piece_before(&t, &sep);
    let payload = match find(&t, &sep) {
        Some(i) => {
            proof {
                let c = first_occ(t@, sep@);
                assert(crate::text::occurs_at(t@, sep@, c) && forall|j: int|
                    0 <= j < c ==> !crate::text::occurs_at(t@, sep@, j));
                assert(c == i) by {
                    if c < i {
                    } else if c > i {
                        assert(!crate::text::occurs_at(t@, sep@, i as int));
                    }
                }
            }
            assert(crate::text::occurs_at(t@, sep@, i as int));
            assert(i + sep@.len() <= t@.len());
            let sl = sep.len();
            let tl = t.len();
            assert(sl == sep@.len() && tl == t@.len());
            let start = i + sl;
            slice_of(&t, start, t.len())
        },
        None => Vec::new(),
    };
    let ns = string_from(&name);
    if str_eq(ns.as_str(), "workspace") {
        HyprEvent::Workspace(parse_i32_chars(&payload))
    } else if str_eq(ns.as_str(), "openwindow") || str_eq(ns.as_str(), "closewindow") || str_eq(
        ns.as_str(),
        "movewindow",
    ) || str_eq(ns.as_str(), "activewindow") || str_eq(ns.as_str(), "activespecial") || str_eq(
        ns.as_str(),
        "fullscreen",
    ) || str_eq(ns.as_str(), "changefloatingmode") {
        HyprEvent::Redraw
    } else {
        HyprEvent::Other
    }
}

/// Text read from the event socket that has not yet formed a whole line.
pub struct EventBuffer {
    pending: Vec<char>,
}

impl View for EventBuffer {
    type V = Seq<char>;

    closed spec fn view(&self) -> Seq<char> {
        self.pending@
    }
}

impl EventBuffer {
    pub fn new() -> (r: EventBuffer)
        ensures
            r@ == Seq::<char>::empty(),
    {
        EventBuffer { pending: Vec::new() }
    }

    /// Append what was read.
    pub fn push(&mut self, text: &str)
        ensures
            final(self)@ == old(self)@ + text@,
    {
        crate::text::push_str(&mut self.pending, text);
    }

    /// Take the first complete line, its `'\n'` included; `None` while no
    /// line is complete.
    pub fn next_line(&mut self) -> (r: Option<String>)
        ensures
            match r {
                Some(l) => {
                    let k = crate::text::index_of(old(self)@, '\n');
                    &&& k < old(self)@.len()
                    &&& l@ == old(self)@.subrange(0, k + 1)
                    &&& final(self)@ == old(self)@.subrange(k + 1, old(self)@.len() as int)
                },
                None => !old(self)@.contains('\n') && final(self)@ == old(self)@,
            },
    {
        proof {
            crate::text::lemma_index_of_bounds(self.pending@, '\n');
        }
        let n = self.pending.len();
        let mut i: usize = 0;
        while i < n && self.pending[i] != '\n'
            invariant
                i <= n,
                n == self.pending.len(),
                forall|j: int| 0 <= j < i ==> self.pending@[j] != '\n',
            decreases n - i,
        {
            i += 1;
        }
        if i == n {
            assert forall|j: int| 0 <= j < self.pending@.len() implies self.pending@[j] != '\n' by {}
            return None;
        }
        let ghost old_v = self.pending@;
        assert(crate::text::index_of(old_v, '\n') == i) by {
            let k = crate::text::index_of(old_v, '\n');
            if k < i {
                assert(old_v[k] == '\n');
            } else if k > i {
                assert(old_v[i as int] == '\n');
            }
        }
        let line = slice_of(&self.pending, 0, i + 1);
        let rest = slice_of(&self.pending, i + 1, n);
        self.pending = rest;
        Some(string_from(&line))
    }
}

/// Candidate `k` is the newest: strictly newer than every earlier one and
/// at least as new as every later one.
pub open spec fn newest_at(c: Seq<(i128, String)>, k: int) -> bool {
    &&& 0 <= k < c.len()
    &&& forall|j: int| 0 <= j < k ==> #[trigger] c[j].0 < c[k].0
    &&& forall|j: int| k < j < c.len() ==> #[trigger] c[j].0 <= c[k].0
}

/// The Hyprland instance to talk to: a non-empty signature from the
/// environment wins; otherwise the instance directory (with a live socket)
/// modified last, the first of equals, given as `(mtime in ns, name)`.
pub fn pick_signature(env: Option<String>, candidates: &Vec<(i128, String)>) -> (r: Option<String>)
    ensures
        (env matches Some(e) && e@.len() > 0) ==> r == env,
        !(env matches Some(e) && e@.len() > 0) ==> (r is None <==> candidates@.len() == 0),
        !(env matches Some(e) && e@.len() > 0) ==> (r matches Some(s) ==> exists|k: int|
            newest_at(candidates@, k) && s == #[trigger] candidates@[k].1),
{
    if let Some(e) = &env {
        if e.as_str().unicode_len() > 0 {
            return env;
        }
    }
    if candidates.len() == 0 {
        return None;
    }
    let mut best: usize = 0;
    let mut k: usize = 1;
    while k < candidates.len()
        invariant
            1 <= k <= candidates@.len(),
            best < k,
            forall|j: int| 0 <= j < best ==> #[trigger] candidates@[j].0 < candidates@[best as int].0,
            forall|j: int|
                best < j < k ==> #[trigger] candidates@[j].0 <= candidates@[best as int].0,
        decreases candidates@.len() - k,
    {
        if candidates[k].0 > candidates[best].0 {
            best = k;
        }
        k = k + 1;
    }
    let r = candidates[best].1.clone();
    assert(newest_at(candidates@, best as int));
    Some(r)
}

/// Trailing whitespace after a non-blank head is trimmed from the tail
/// alone.
proof fn lemma_trim_end_tail(a: Seq<char>, b: Seq<char>)
    requires
        a.len() > 0,
        !crate::text::is_ws(a.last()),
    ensures
        crate::text::trim_end(a + b) == a + crate::text::trim_end(b),
    decreases b.len(),
{
    if b.len() == 0 {
        assert(a + b =~= a);
        assert(a + crate::text::trim_end(b) =~= a);
    } else if crate::text::is_ws(b.last()) {
        assert((a + b).last() == b.last());
        assert((a + b).drop_last() =~= a + b.drop_last());
        lemma_trim_end_tail(a, b.drop_last());
    } else {
        assert((a + b).last() == b.last());
    }
}

/// The event name of a line `name>>payload` is `name`, for a name that
/// starts with a non-blank and holds no `>`.
proof fn lemma_event_name(n: Seq<char>, p: Seq<char>)
    requires
        n.len() > 0,
        !crate::text::is_ws(n[0]),
        forall|i: int| 0 <= i < n.len() ==> n[i] != '>',
    ensures
        event_name(n + ">>"@ + p) == n,
{
    reveal_strlit(">>");
    let line = n + ">>"@ + p;
    let head = n + ">>"@;
    assert(line =~= head + p);
    assert(line[0] == n[0]);
    assert(crate::text::trim_start(line) == line);
    assert(head.last() == '>');
    lemma_trim_end_tail(head, p);
    let t = head + crate::text::trim_end(p);
    assert(crate::text::trim(line) == t);
    let k = n.len() as int;
    assert(t.subrange(k, k + 2) =~= ">>"@);
    assert(crate::text::occurs_at(t, ">>"@, k));
    assert(contains(t, ">>"@));
    assert forall|j: int| 0 <= j < k implies !crate::text::occurs_at(t, ">>"@, j) by {
        if crate::text::occurs_at(t, ">>"@, j) {
            assert(t.subrange(j, j + 2)[0] == t[j]);
            assert(t[j] == n[j]);
        }
    }
    let f = first_occ(t, ">>"@);
    assert(crate::text::occurs_at(t, ">>"@, f) && forall|j: int| 0 <= j < f ==> !crate::text::occurs_at(t, ">>"@, j));
    assert(f == k);
    assert(t.subrange(0, k) =~= n);
}

/// Window events redraw the bar: an `openwindow`, `closewindow`,
/// `movewindow`, `activewindow`, `activespecial`, `fullscreen` or
/// `changefloatingmode` line is `Redraw`, whatever its payload.
pub proof fn law_window_events_redraw(p: Seq<char>)
    ensures
        event_of("openwindow"@ + ">>"@ + p) == HyprEvent::Redraw,
        event_of("closewindow"@ + ">>"@ + p) == HyprEvent::Redraw,
        event_of("movewindow"@ + ">>"@ + p) == HyprEvent::Redraw,
        event_of("activewindow"@ + ">>"@ + p) == HyprEvent::Redraw,
        event_of("activespecial"@ + ">>"@ + p) == HyprEvent::Redraw,
        event_of("fullscreen"@ + ">>"@ + p) == HyprEvent::Redraw,
        event_of("changefloatingmode"@ + ">>"@ + p) == HyprEvent::Redraw,
{
    reveal_strlit("openwindow");
    reveal_strlit("closewindow");
    reveal_strlit("movewindow");
    reveal_strlit("activewindow");
    reveal_strlit("activespecial");
    reveal_strlit("fullscreen");
    reveal_strlit("changefloatingmode");
    reveal_strlit("workspace");
    lemma_event_name("openwindow"@, p);
    lemma_event_name("closewindow"@, p);
    lemma_event_name("movewindow"@, p);
    lemma_event_name("activewindow"@, p);
    lemma_event_name("activespecial"@, p);
    lemma_event_name("fullscreen"@, p);
    lemma_event_name("changefloatingmode"@, p);
    assert("openwindow"@ != "workspace"@);
    assert("closewindow"@ != "workspace"@);
    assert("movewindow"@[0] != "workspace"@[0]);
    assert("activewindow"@ != "workspace"@);
    assert("activespecial"@ != "workspace"@);
    assert("fullscreen"@ != "workspace"@);
    assert("changefloatingmode"@ != "workspace"@);
}

/// Any other event name (without `>`, not starting blank) that is not
/// `workspace` or one of the window events leaves the bar alone.
pub proof fn law_other_events_ignored(n: Seq<char>, p: Seq<char>)
    requires
        n.len() > 0,
        !crate::text::is_ws(n[0]),
        forall|i: int| 0 <= i < n.len() ==> n[i] != '>',
        n != "workspace"@,
        n != "openwindow"@,
        n != "closewindow"@,
        n != "movewindow"@,
        n != "activewindow"@,
        n != "activespecial"@,
        n != "fullscreen"@,
        n != "changefloatingmode"@,
    ensures
        event_of(n + ">>"@ + p) == HyprEvent::Other,
{
    lemma_event_name(n, p);
}

/// Nothing read from the socket is lost or reordered: taking a line off
/// the buffer leaves exactly the text after it.
pub proof fn law_lines_partition(before: Seq<char>, line: Seq<char>, after: Seq<char>)
    requires
        line.len() > 0,
        line.last() == '\n',
        !line.drop_last().contains('\n'),
        before == line + after,
    ensures
        crate::text::index_of(before, '\n') == line.len() - 1,
        before.subrange(0, line.len() as int) == line,
        before.subrange(line.len() as int, before.len() as int) == after,
{
    crate::text::lemma_index_of_bounds(before, '\n');
    let k = crate::text::index_of(before, '\n');
    let m = line.len() - 1;
    assert(before[m] == '\n');
    if k < m {
        assert(line.drop_last()[k] == '\n');
    }
    assert(before.subrange(0, line.len() as int) =~= line);
    assert(before.subrange(line.len() as int, before.len() as int) =~= after);
}

} // verus!
