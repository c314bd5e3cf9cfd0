//! The state of the session browser and how keys change it.
pub mod confirm;
pub mod list;
pub mod reader;

use vstd::prelude::*;
use crate::reader::Turn;
use crate::scan::{path_eq, same_path};
use crate::session::SessionMeta;
use crate::text::{
    ascii_lower, contains, has_substring, is_ascii, lowercase, occurs_at, pop_char, push_char,
    push_decimal, push_str, decimal, to_lowercase, text_eq,
};

verus! {

/// A key press, as the browser tells keys apart.
#[derive(Debug, Clone, Copy, PartialEq, Eq, Structural)]
pub enum Key {
    Char(char),
    Esc,
    Enter,
    Backspace,
    Tab,
    Up,
    Down,
    PageUp,
    PageDown,
    Other,
}

/// Lower-cased conversation bodies, by the path of the session log. Paths
/// are compared as `Path`s compare them (`same_path`).
pub struct BodyCache {
    entries: Vec<(String, String)>,
}

/// The body stored among `entries` for a path equal to `path`: the latest
/// one wins.
pub open spec fn cache_lookup(entries: Seq<(String, String)>, path: Seq<char>) -> Option<
    Seq<char>,
>
    decreases entries.len(),
{
    if entries.len() == 0 {
        None
    } else if same_path(entries.last().0@, path) {
        Some(entries.last().1@)
    } else {
        cache_lookup(entries.drop_last(), path)
    }
}

/// No two entries hold equal paths.
pub open spec fn distinct_paths(entries: Seq<(String, String)>) -> bool {
    forall|i: int, j: int|
        0 <= i < j < entries.len() ==> !same_path(
            (#[trigger] entries[i]).0@,
            (#[trigger] entries[j]).0@,
        )
}

/// A path has a body exactly when some entry holds it.
proof fn lemma_lookup_some(entries: Seq<(String, String)>, p: Seq<char>)
    ensures
        cache_lookup(entries, p) is Some <==> exists|i: int|
            0 <= i < entries.len() && same_path((#[trigger] entries[i]).0@, p),
    decreases entries.len(),
{
    if entries.len() > 0 {
        let prev = entries.drop_last();
        lemma_lookup_some(prev, p);
        if cache_lookup(entries, p) is Some {
            if !same_path(entries.last().0@, p) {
                let i = choose|i: int| 0 <= i < prev.len() && same_path((#[trigger] prev[i]).0@, p);
                assert(entries[i] == prev[i]);
            }
        } else {
            assert forall|i: int| 0 <= i < entries.len() implies !same_path(
                (#[trigger] entries[i]).0@,
                p,
            ) by {
                if i < prev.len() {
                    assert(entries[i] == prev[i]);
                }
            }
        }
    }
}

/// Replacing the body of the entry for a path changes what is stored for
/// that path only.
proof fn lemma_lookup_update(
    entries: Seq<(String, String)>,
    j: int,
    e: (String, String),
    p: Seq<char>,
)
    requires
        distinct_paths(entries),
        0 <= j < entries.len(),
        same_path(entries[j].0@, e.0@),
    ensures
        cache_lookup(entries.update(j, e), p) == if same_path(p, e.0@) {
            Some(e.1@)
        } else {
            cache_lookup(entries, p)
        },
    decreases entries.len(),
{
    let u = entries.update(j, e);
    let prev = entries.drop_last();
    assert(u.drop_last() == if j == entries.len() - 1 {
        prev
    } else {
        prev.update(j, e)
    });
    if j < entries.len() - 1 {
        assert(entries.last() == entries[entries.len() - 1]);
        assert(!same_path(entries.last().0@, e.0@));
        assert(u.last() == entries.last());
        if !same_path(entries.last().0@, p) {
            lemma_lookup_update(prev, j, e, p);
        }
    }
}

impl BodyCache {
    /// Every path is stored at most once.
    #[verifier::type_invariant]
    pub closed spec fn paths_distinct(self) -> bool {
        distinct_paths(self.entries@)
    }

    /// The body stored for a path.
    pub closed spec fn lookup(self, path: Seq<char>) -> Option<Seq<char>> {
        cache_lookup(self.entries@, path)
    }

    /// The number of paths that have a body.
    pub closed spec fn size(self) -> nat {
        self.entries@.len()
    }

    /// A cache that holds nothing.
    pub fn new() -> (r: BodyCache)
        ensures
            forall|p: Seq<char>| r.lookup(p) is None,
            r.size() == 0,
    {
        BodyCache { entries: Vec::new() }
    }

    /// The number of paths that have a body.
    pub fn len(&self) -> (r: usize)
        ensures
            r == self.size(),
    {
        self.entries.len()
    }

    /// Store `body` for `path`, replacing what was stored for a path equal
    /// to it. The cache grows by one path when the path had no body before.
    pub fn insert(&mut self, path: String, body: String)
        ensures
            forall|p: Seq<char>|
                #![trigger final(self).lookup(p)]
                final(self).lookup(p) == if same_path(p, path@) {
                    Some(body@)
                } else {
                    old(self).lookup(p)
                },
            final(self).size() == old(self).size() + if old(self).lookup(path@) is Some {
                0nat
            } else {
                1nat
            },
    {
        proof {
            use_type_invariant(&*self);
        }
        let ghost k = path@;
        let ghost b = body@;
        let mut entries: Vec<(String, String)> = Vec::new();
        std::mem::swap(&mut entries, &mut self.entries);
        let ghost before = entries@;
        assert(before == old(self).entries@);
        let mut i: usize = 0;
        while i < entries.len()
            invariant
                entries@ == before,
                before == old(self).entries@,
                k == path@,
                b == body@,
                distinct_paths(before),
                i <= before.len(),
                forall|m: int| 0 <= m < i ==> !same_path((#[trigger] before[m]).0@, k),
            decreases before.len() - i,
        {
            let same = path_eq(entries[i].0.as_str(), path.as_str());
            assert(entries@[i as int] == before[i as int]);
            if same {
                let e = (path, body);
                proof {
                    lemma_lookup_some(before, k);
                    assert(same_path(before[i as int].0@, k));
                    assert forall|p: Seq<char>| #![trigger cache_lookup(before.update(i as int, e), p)]
                        cache_lookup(before.update(i as int, e), p) == if same_path(p, k) {
                            Some(b)
                        } else {
                            cache_lookup(before, p)
                        } by {
                        lemma_lookup_update(before, i as int, e, p);
                    }
                    assert forall|m: int, n: int| 0 <= m < n < before.len() implies !same_path(
                        (#[trigger] before.update(i as int, e)[m]).0@,
                        (#[trigger] before.update(i as int, e)[n]).0@,
                    ) by {
                        assert(!same_path(before[m].0@, before[n].0@));
                    }
                }
                entries.set(i, e);
                self.entries = entries;
                return;
            }
            i = i + 1;
        }
        proof {
            lemma_lookup_some(before, k);
        }
        entries.push((path, body));
        proof {
            assert forall|m: int, n: int| 0 <= m < n < entries@.len() implies !same_path(
                (#[trigger] entries@[m]).0@,
                (#[trigger] entries@[n]).0@,
            ) by {
                if n < before.len() {
                    assert(!same_path(before[m].0@, before[n].0@));
                } else {
                    assert(entries@[m] == before[m]);
                }
            }
        }
        self.entries = entries;
        assert forall|p: Seq<char>| #![trigger self.lookup(p)] self.lookup(p) == if same_path(p, k) {
            Some(b)
        } else {
            old(self).lookup(p)
        } by {
            assert(self.entries@.drop_last() == before);
        }
    }

    /// The body stored for `path`.
    pub fn get(&self, path: &str) -> (r: Option<&String>)
        ensures
            r is None <==> self.lookup(path@) is None,
            r matches Some(b) ==> self.lookup(path@) == Some(b@),
    {
        let mut i: usize = self.entries.len();
        assert(self.entries@.take(i as int) == self.entries@);
        while i > 0
            invariant
                i <= self.entries.len(),
                self.lookup(path@) == cache_lookup(self.entries@.take(i as int), path@),
            decreases i,
        {
            assert(self.entries@.take(i as int).drop_last() == self.entries@.take(i - 1));
            assert(self.entries@.take(i as int).last() == self.entries@[i - 1]);
            if path_eq(self.entries[i - 1].0.as_str(), path) {
                return Some(&self.entries[i - 1].1);
            }
            i = i - 1;
        }
        None
    }
}

/// The `/` filter: whether it takes input, its query, whether it searches
/// conversation bodies, and the bodies once they have been read.
pub struct FilterState {
    pub active: bool,
    pub query: String,
    pub body_scope: bool,
    pub body_cache: Option<BodyCache>,
}

/// Which screen is showing.
pub enum Mode {
    List,
    Reader { turns: Vec<Turn>, scroll: u16 },
}

/// What the front end must do after a key.
#[derive(Debug, PartialEq, Eq, Structural)]
pub enum Action {
    Nothing,
    Resume { fork: bool },
    LoadBodies,
    /// Read the log of session `index` and show it in the reader.
    OpenReader { index: usize },
    /// Move the log of session `index` to the trash.
    Trash { index: usize },
}

/// The state of the browser.
pub struct App {
    pub sessions: Vec<SessionMeta>,
    pub selected: usize,
    pub show_preview: Option<bool>,
    pub last_width: u16,
    pub mode: Mode,
    pub filter: FilterState,
    pub reader_index: Option<usize>,
    pub status: Option<String>,
    pub pending_delete: Option<usize>,
    pub should_quit: bool,
}

// ---------------------------------------------------------------------------
// Filtering
// ---------------------------------------------------------------------------

/// A session matches a lower-cased query when its lower-cased title or cwd
/// contains it, or, with body scope on, when its cached body does.
pub open spec fn session_matches(
    m: SessionMeta,
    query_lower: Seq<char>,
    body_scope: bool,
    body_cache: Option<BodyCache>,
) -> bool {
    ||| has_substring(lowercase(m.title@), query_lower)
    ||| match m.cwd {
        Some(c) => has_substring(lowercase(c@), query_lower),
        None => false,
    }
    ||| body_scope && match body_cache {
        Some(cache) => match cache.lookup(m.path@) {
            Some(b) => has_substring(b, query_lower),
            None => false,
        },
        None => false,
    }
}

/// The indices below `n` of the sessions that match.
pub open spec fn matching(
    ss: Seq<SessionMeta>,
    query_lower: Seq<char>,
    body_scope: bool,
    body_cache: Option<BodyCache>,
    n: int,
) -> Seq<usize>
    decreases n,
{
    if n <= 0 {
        seq![]
    } else {
        let prev = matching(ss, query_lower, body_scope, body_cache, n - 1);
        if session_matches(ss[n - 1], query_lower, body_scope, body_cache) {
            prev.push((n - 1) as usize)
        } else {
            prev
        }
    }
}

/// The indices of the sessions that the list shows: all of them for an
/// empty query, else those that match the lower-cased query.
pub open spec fn visible(a: App) -> Seq<usize> {
    if a.filter.query@.len() == 0 {
        Seq::new(a.sessions@.len(), |i: int| i as usize)
    } else {
        matching(
            a.sessions@,
            lowercase(a.filter.query@),
            a.filter.body_scope,
            a.filter.body_cache,
            a.sessions@.len() as int,
        )
    }
}

/// Whether the preview pane shows: as toggled, else when at least 100
/// columns are available.
pub open spec fn preview_on(show_preview: Option<bool>, width: u16) -> bool {
    match show_preview {
        Some(v) => v,
        None => width >= 100,
    }
}

/// Every index that `matching` yields is below `n`, in increasing order.
pub proof fn lemma_matching_sorted(
    ss: Seq<SessionMeta>,
    q: Seq<char>,
    scope: bool,
    cache: Option<BodyCache>,
    n: int,
)
    requires
        0 <= n <= ss.len(),
        n <= usize::MAX,
    ensures
        forall|i: int|
            0 <= i < matching(ss, q, scope, cache, n).len() ==> (#[trigger] matching(
                ss,
                q,
                scope,
                cache,
                n,
            )[i]) < n,
        forall|i: int, j: int|
            0 <= i < j < matching(ss, q, scope, cache, n).len() ==> matching(
                ss,
                q,
                scope,
                cache,
                n,
            )[i] < matching(ss, q, scope, cache, n)[j],
    decreases n,
{
    if n > 0 {
        lemma_matching_sorted(ss, q, scope, cache, n - 1);
        let prev = matching(ss, q, scope, cache, n - 1);
        if session_matches(ss[n - 1], q, scope, cache) {
            let cur = prev.push((n - 1) as usize);
            assert forall|i: int| 0 <= i < cur.len() implies (#[trigger] cur[i]) < n by {
                if i < prev.len() {
                    assert(cur[i] == prev[i]);
                }
            }
            assert forall|i: int, j: int| 0 <= i < j < cur.len() implies cur[i] < cur[j] by {
                assert(cur[i] == prev[i]);
                if j < prev.len() {
                    assert(cur[j] == prev[j]);
                }
            }
        }
    }
}

/// An index is listed by `matching` exactly when the session matches.
pub proof fn lemma_matching_complete(
    ss: Seq<SessionMeta>,
    q: Seq<char>,
    scope: bool,
    cache: Option<BodyCache>,
    n: int,
    k: int,
)
    requires
        0 <= k < n <= ss.len(),
        n <= usize::MAX,
    ensures
        matching(ss, q, scope, cache, n).contains(k as usize) <==> session_matches(
            ss[k],
            q,
            scope,
            cache,
        ),
    decreases n,
{
    lemma_matching_sorted(ss, q, scope, cache, n - 1);
    let prev = matching(ss, q, scope, cache, n - 1);
    if k < n - 1 {
        lemma_matching_complete(ss, q, scope, cache, n - 1, k);
        if session_matches(ss[n - 1], q, scope, cache) {
            let cur = prev.push((n - 1) as usize);
            if cur.contains(k as usize) {
                let j = choose|j: int| 0 <= j < cur.len() && cur[j] == k as usize;
                if j == prev.len() {
                    assert(cur[j] == (n - 1) as usize);
                } else {
                    assert(prev[j] == cur[j]);
                }
            }
            if prev.contains(k as usize) {
                let j = choose|j: int| 0 <= j < prev.len() && prev[j] == k as usize;
                assert(cur[j] == prev[j]);
            }
        }
    } else {
        if session_matches(ss[n - 1], q, scope, cache) {
            let cur = prev.push((n - 1) as usize);
            assert(cur[prev.len() as int] == k as usize);
        } else {
            if prev.contains(k as usize) {
                let j = choose|j: int| 0 <= j < prev.len() && prev[j] == k as usize;
                assert(prev[j] < n - 1);
            }
        }
    }
}

/// Decide whether a single session matches the filter. `query_lower` is
/// already lower-cased, and so are the bodies in the cache.
pub fn match_session(
    meta: &SessionMeta,
    query_lower: &str,
    body_scope: bool,
    body_cache: Option<&BodyCache>,
) -> (r: bool)
    ensures
        r == session_matches(
            *meta,
            query_lower@,
            body_scope,
            match body_cache {
                Some(c) => Some(*c),
                None => None,
            },
        ),
{
    let title = to_lowercase(meta.title.as_str());
    let title_hit = contains(title.as_str(), query_lower);
    let cwd_hit = match &meta.cwd {
        Some(c) => {
            let lc = to_lowercase(c.as_str());
            contains(lc.as_str(), query_lower)
        },
        None => false,
    };
    let body_hit = if body_scope {
        match body_cache {
            Some(cache) => match cache.get(meta.path.as_str()) {
                Some(b) => contains(b.as_str(), query_lower),
                None => false,
            },
            None => false,
        }
    } else {
        false
    };
    title_hit || cwd_hit || body_hit
}

impl App {
    /// A browser over `sessions`: the list showing, the first row selected,
    /// no filter, no status and nothing pending.
    pub fn new(sessions: Vec<SessionMeta>) -> (r: App)
        ensures
            r.sessions == sessions,
            r.selected == 0,
            r.show_preview is None,
            r.last_width == 0,
            r.mode is List,
            !r.filter.active,
            r.filter.query@ == Seq::<char>::empty(),
            !r.filter.body_scope,
            r.filter.body_cache is None,
            r.reader_index is None,
            r.status is None,
            r.pending_delete is None,
            !r.should_quit,
            r.wf(),
    {
        App {
            sessions,
            selected: 0,
            show_preview: None,
            last_width: 0,
            mode: Mode::List,
            filter: FilterState {
                active: false,
                query: String::new(),
                body_scope: false,
                body_cache: None,
            },
            reader_index: None,
            status: None,
            pending_delete: None,
            should_quit: false,
        }
    }

    /// The state is consistent: a pending deletion names a session, and the
    /// reader shows a session that exists.
    pub open spec fn wf(self) -> bool {
        &&& (self.pending_delete matches Some(i) ==> i < self.sessions.len())
        &&& (self.mode is Reader ==> (self.reader_index matches Some(i) && i
            < self.sessions.len()))
    }

    /// The indices of the sessions that the list shows, in order.
    pub fn filtered_indices(&self) -> (r: Vec<usize>)
        ensures
            r@ == visible(*self),
            forall|i: int| 0 <= i < r@.len() ==> (#[trigger] r@[i]) < self.sessions.len(),
            forall|i: int, j: int| 0 <= i < j < r@.len() ==> r@[i] < r@[j],
            forall|k: int|
                0 <= k < self.sessions.len() ==> (#[trigger] r@.contains(k as usize) <==> (
                self.filter.query@.len() == 0 || session_matches(
                    self.sessions@[k],
                    lowercase(self.filter.query@),
                    self.filter.body_scope,
                    self.filter.body_cache,
                ))),
    {
        let n = self.sessions.len();
        let mut out: Vec<usize> = Vec::new();
        if self.filter.query.as_str().is_empty() {
            let mut i: usize = 0;
            while i < n
                invariant
                    n == self.sessions.len(),
                    i <= n,
                    out@ == Seq::new(i as nat, |k: int| k as usize),
                decreases n - i,
            {
                out.push(i);
                i = i + 1;
                assert(out@ =~= Seq::new(i as nat, |k: int| k as usize));
            }
            assert forall|k: int| 0 <= k < n implies #[trigger] out@.contains(k as usize) by {
                assert(out@[k] == k as usize);
            }
            return out;
        }
        let q = to_lowercase(self.filter.query.as_str());
        let cache = match &self.filter.body_cache {
            Some(c) => Some(c),
            None => None,
        };
        let mut i: usize = 0;
        while i < n
            invariant
                n == self.sessions.len(),
                i <= n,
                q@ == lowercase(self.filter.query@),
                (match cache {
                    Some(c) => Some(*c),
                    None => None,
                }) == self.filter.body_cache,
                out@ == matching(
                    self.sessions@,
                    q@,
                    self.filter.body_scope,
                    self.filter.body_cache,
                    i as int,
                ),
            decreases n - i,
        {
            if match_session(&self.sessions[i], q.as_str(), self.filter.body_scope, cache) {
                out.push(i);
            }
            i = i + 1;
        }
        proof {
            lemma_matching_sorted(
                self.sessions@,
                q@,
                self.filter.body_scope,
                self.filter.body_cache,
                n as int,
            );
            assert forall|k: int| 0 <= k < n implies (#[trigger] out@.contains(k as usize)
                <==> session_matches(
                self.sessions@[k],
                q@,
                self.filter.body_scope,
                self.filter.body_cache,
            )) by {
                lemma_matching_complete(
                    self.sessions@,
                    q@,
                    self.filter.body_scope,
                    self.filter.body_cache,
                    n as int,
                    k,
                );
            }
        }
        out
    }
}

// ---------------------------------------------------------------------------
// Keys
// ---------------------------------------------------------------------------

/// The status line holds exactly `msg`.
pub open spec fn status_is(b: App, msg: Seq<char>) -> bool {
    match b.status {
        Some(s) => s@ == msg,
        None => false,
    }
}

/// `scroll` moved down by `d` lines, stopping at the largest offset.
pub open spec fn scroll_down(scroll: u16, d: u16) -> u16 {
    if scroll + d > u16::MAX {
        u16::MAX
    } else {
        (scroll + d) as u16
    }
}

/// `scroll` moved up by `d` lines, stopping at the top.
pub open spec fn scroll_up(scroll: u16, d: u16) -> u16 {
    if scroll >= d {
        (scroll - d) as u16
    } else {
        0
    }
}

/// A key while a deletion awaits confirmation: `y` confirms (and asks the
/// front end to trash the session), `n` and Esc cancel, anything else waits.
pub open spec fn confirm_step(a: App, key: Key, b: App, act: Action) -> bool {
    let i = a.pending_delete.unwrap();
    if key == Key::Char('y') || key == Key::Char('Y') {
        if i < a.sessions.len() {
            &&& act == Action::Trash { index: i }
            &&& b == (App { status: None, pending_delete: None, ..a })
        } else {
            &&& act == Action::Nothing
            &&& b == (App { status: b.status, pending_delete: None, ..a })
            &&& status_is(b, "invalid selection"@)
        }
    } else if key == Key::Char('n') || key == Key::Char('N') || key == Key::Esc {
        &&& act == Action::Nothing
        &&& b == (App { status: None, pending_delete: None, ..a })
    } else {
        &&& act == Action::Nothing
        &&& b == (App { status: None, ..a })
    }
}

/// A key while the filter takes input: Esc clears the query and body scope
/// and leaves input, Enter leaves input keeping both, Backspace removes the
/// last character, a character is appended, and Tab asks for the bodies to
/// be read the first time and toggles body scope after that.
pub open spec fn filter_step(a: App, key: Key, b: App, act: Action) -> bool {
    let f = a.filter;
    if key == Key::Esc {
        &&& act == Action::Nothing
        &&& b == (App {
            status: None,
            filter: FilterState { active: false, query: b.filter.query, body_scope: false, ..f },
            ..a
        })
        &&& b.filter.query@ == Seq::<char>::empty()
    } else if key == Key::Enter {
        &&& act == Action::Nothing
        &&& b == (App { status: None, filter: FilterState { active: false, ..f }, ..a })
    } else if key == Key::Backspace {
        &&& act == Action::Nothing
        &&& b == (App {
            status: None,
            filter: FilterState { query: b.filter.query, ..f },
            ..a
        })
        &&& b.filter.query@ == if f.query@.len() > 0 {
            f.query@.drop_last()
        } else {
            f.query@
        }
    } else if key is Char {
        &&& act == Action::Nothing
        &&& b == (App {
            status: None,
            filter: FilterState { query: b.filter.query, ..f },
            ..a
        })
        &&& b.filter.query@ == f.query@.push(key->Char_0)
    } else if key == Key::Tab {
        if f.body_cache is None {
            &&& act == Action::LoadBodies
            &&& b == (App { status: None, ..a })
        } else {
            &&& act == Action::Nothing
            &&& b == (App {
                status: None,
                filter: FilterState { body_scope: !f.body_scope, ..f },
                ..a
            })
        }
    } else {
        &&& act == Action::Nothing
        &&& b == (App { status: None, ..a })
    }
}

/// A key on the list: quit, start filtering, move the cursor within the
/// visible rows, toggle the preview, open the reader, resume or fork, or
/// ask to delete the session under the cursor.
pub open spec fn list_step(a: App, key: Key, b: App, act: Action) -> bool {
    let v = visible(a);
    if key == Key::Char('q') || key == Key::Esc {
        &&& act == Action::Nothing
        &&& b == (App { status: None, should_quit: true, ..a })
    } else if key == Key::Char('/') {
        &&& act == Action::Nothing
        &&& b == (App {
            status: None,
            filter: FilterState {
                active: true,
                query: b.filter.query,
                body_scope: false,
                ..a.filter
            },
            ..a
        })
        &&& b.filter.query@ == Seq::<char>::empty()
    } else if key == Key::Down || key == Key::Char('j') {
        &&& act == Action::Nothing
        &&& b == (App {
            status: None,
            selected: if v.len() > 0 && a.selected + 1 < v.len() {
                (a.selected + 1) as usize
            } else {
                a.selected
            },
            ..a
        })
    } else if key == Key::Up || key == Key::Char('k') {
        &&& act == Action::Nothing
        &&& b == (App {
            status: None,
            selected: if a.selected > 0 {
                (a.selected - 1) as usize
            } else {
                0
            },
            ..a
        })
    } else if key == Key::Char('p') {
        &&& act == Action::Nothing
        &&& b == (App {
            status: None,
            show_preview: Some(!preview_on(a.show_preview, a.last_width)),
            ..a
        })
    } else if key == Key::Enter {
        &&& act == if a.selected < v.len() {
            Action::OpenReader { index: v[a.selected as int] }
        } else {
            Action::Nothing
        }
        &&& b == (App { status: None, ..a })
    } else if key == Key::Char('r') {
        &&& act == Action::Resume { fork: false }
        &&& b == (App { status: None, ..a })
    } else if key == Key::Char('f') {
        &&& act == Action::Resume { fork: true }
        &&& b == (App { status: None, ..a })
    } else if key == Key::Char('d') {
        &&& act == Action::Nothing
        &&& b == (App {
            status: None,
            pending_delete: if a.selected < v.len() {
                Some(v[a.selected as int])
            } else {
                a.pending_delete
            },
            ..a
        })
    } else {
        &&& act == Action::Nothing
        &&& b == (App { status: None, ..a })
    }
}

/// A key in the reader: back to the list, scroll by a line or a page
/// (stopping at the ends of the offset range), resume or fork.
pub open spec fn reader_step(a: App, key: Key, b: App, act: Action) -> bool {
    let turns = a.mode->turns;
    let scroll = a.mode->scroll;
    if key == Key::Char('q') || key == Key::Esc {
        &&& act == Action::Nothing
        &&& b == (App { status: None, mode: Mode::List, ..a })
    } else if key == Key::Down || key == Key::Char('j') {
        &&& act == Action::Nothing
        &&& b == (App {
            status: None,
            mode: Mode::Reader { turns, scroll: scroll_down(scroll, 1) },
            ..a
        })
    } else if key == Key::Up || key == Key::Char('k') {
        &&& act == Action::Nothing
        &&& b == (App {
            status: None,
            mode: Mode::Reader { turns, scroll: scroll_up(scroll, 1) },
            ..a
        })
    } else if key == Key::PageDown {
        &&& act == Action::Nothing
        &&& b == (App {
            status: None,
            mode: Mode::Reader { turns, scroll: scroll_down(scroll, 10) },
            ..a
        })
    } else if key == Key::PageUp {
        &&& act == Action::Nothing
        &&& b == (App {
            status: None,
            mode: Mode::Reader { turns, scroll: scroll_up(scroll, 10) },
            ..a
        })
    } else if key == Key::Char('r') {
        &&& act == Action::Resume { fork: false }
        &&& b == (App { status: None, ..a })
    } else if key == Key::Char('f') {
        &&& act == Action::Resume { fork: true }
        &&& b == (App { status: None, ..a })
    } else {
        &&& act == Action::Nothing
        &&& b == (App { status: None, ..a })
    }
}

/// What a key does to the browser and what it asks of the front end.
pub open spec fn key_step(a: App, key: Key, b: App, act: Action) -> bool {
    match a.mode {
        Mode::List => if a.pending_delete is Some {
            confirm_step(a, key, b, act)
        } else if a.filter.active {
            filter_step(a, key, b, act)
        } else {
            list_step(a, key, b, act)
        },
        Mode::Reader { .. } => reader_step(a, key, b, act),
    }
}

/// Whether the preview pane shows at the given width.
pub fn effective_preview(app: &App, width: u16) -> (r: bool)
    ensures
        r == preview_on(app.show_preview, width),
{
    match app.show_preview {
        Some(v) => v,
        None => width >= 100,
    }
}

/// Handle one key press: clear the status, change the state, and say what
/// the front end must do (read bodies, open the reader, trash a session,
/// resume). The state stays consistent.
pub fn handle_key(key: Key, app: &mut App) -> (r: Action)
    requires
        old(app).wf(),
    ensures
        key_step(*old(app), key, *final(app), r),
        final(app).wf(),
{
    app.status = None;
    let in_list = match app.mode {
        Mode::List => true,
        Mode::Reader { .. } => false,
    };
    if in_list {
        if app.pending_delete.is_some() {
            if key == Key::Char('y') || key == Key::Char('Y') {
                let real_idx = match app.pending_delete {
                    Some(i) => i,
                    None => {
                        return Action::Nothing;
                    },
                };
                app.pending_delete = None;
                if real_idx >= app.sessions.len() {
                    app.status = Some(String::from_str("invalid selection"));
                    return Action::Nothing;
                }
                return Action::Trash { index: real_idx };
            } else if key == Key::Char('n') || key == Key::Char('N') || key == Key::Esc {
                app.pending_delete = None;
                return Action::Nothing;
            } else {
                return Action::Nothing;
            }
        }
        if app.filter.active {
            if key == Key::Esc {
                app.filter.active = false;
                app.filter.query = String::new();
                app.filter.body_scope = false;
            } else if key == Key::Enter {
                app.filter.active = false;
            } else if key == Key::Backspace {
                pop_char(&mut app.filter.query);
            } else if let Key::Char(c) = key {
                push_char(&mut app.filter.query, c);
            } else if key == Key::Tab {
                if app.filter.body_cache.is_none() {
                    return Action::LoadBodies;
                }
                app.filter.body_scope = !app.filter.body_scope;
                return Action::Nothing;
            }
            return Action::Nothing;
        }
        if key == Key::Char('q') || key == Key::Esc {
            app.should_quit = true;
        } else if key == Key::Char('/') {
            app.filter.active = true;
            app.filter.query = String::new();
            app.filter.body_scope = false;
        } else if key == Key::Down || key == Key::Char('j') {
            let indices = app.filtered_indices();
            if indices.len() > 0 && app.selected < indices.len() - 1 {
                app.selected = app.selected + 1;
            }
        } else if key == Key::Up || key == Key::Char('k') {
            if app.selected > 0 {
                app.selected = app.selected - 1;
            }
        } else if key == Key::Char('p') {
            let cur = effective_preview(app, app.last_width);
            app.show_preview = Some(!cur);
        } else if key == Key::Enter {
            let indices = app.filtered_indices();
            if app.selected < indices.len() {
                return Action::OpenReader { index: indices[app.selected] };
            }
        } else if key == Key::Char('r') {
            return Action::Resume { fork: false };
        } else if key == Key::Char('f') {
            return Action::Resume { fork: true };
        } else if key == Key::Char('d') {
            let indices = app.filtered_indices();
            if app.selected < indices.len() {
                app.pending_delete = Some(indices[app.selected]);
            }
        }
        Action::Nothing
    } else {
        if key == Key::Char('q') || key == Key::Esc {
            app.mode = Mode::List;
        } else if key == Key::Char('r') {
            return Action::Resume { fork: false };
        } else if key == Key::Char('f') {
            return Action::Resume { fork: true };
        } else {
            let step: (bool, u16) = if key == Key::Down || key == Key::Char('j') {
                (true, 1)
            } else if key == Key::Up || key == Key::Char('k') {
                (false, 1)
            } else if key == Key::PageDown {
                (true, 10)
            } else if key == Key::PageUp {
                (false, 10)
            } else {
                (true, 0)
            };
            match &mut app.mode {
                Mode::Reader { scroll, .. } => {
                    if step.0 {
                        *scroll = scroll.saturating_add(step.1);
                    } else {
                        *scroll = scroll.saturating_sub(step.1);
                    }
                },
                Mode::List => {},
            }
        }
        Action::Nothing
    }
}

// ---------------------------------------------------------------------------
// What the front end reports back
// ---------------------------------------------------------------------------

/// `"<before><n><after>"` for a count `n`.
pub open spec fn count_text(before: Seq<char>, n: nat, after: Seq<char>) -> Seq<char> {
    before + decimal(n) + after
}

/// A message with a count in it.
fn count_message(before: &str, n: usize, after: &str) -> (r: String)
    ensures
        r@ == count_text(before@, n as nat, after@),
{
    let mut m = String::from_str(before);
    push_decimal(&mut m, n as u64);
    push_str(&mut m, after);
    m
}

/// The lower-cased text of a conversation: its turn bodies, one after the
/// other on their own lines.
pub open spec fn body_text_of(turns: Seq<Turn>) -> Seq<char> {
    lowercase(crate::text::join(turns.map_values(|t: Turn| t.body@), "\n"@))
}

/// The lower-cased text of a conversation that body search looks in.
pub fn body_text(turns: &Vec<Turn>) -> (r: String)
    ensures
        r@ == body_text_of(turns@),
{
    let ghost bodies = turns@.map_values(|t: Turn| t.body@);
    let mut all = String::new();
    let mut i: usize = 0;
    while i < turns.len()
        invariant
            i <= turns.len(),
            bodies == turns@.map_values(|t: Turn| t.body@),
            all@ == crate::text::join(bodies.take(i as int), "\n"@),
        decreases turns.len() - i,
    {
        proof {
            crate::text::lemma_join_push(bodies.take(i as int), "\n"@, bodies[i as int]);
            assert(bodies.take(i + 1) == bodies.take(i as int).push(bodies[i as int]));
        }
        if i > 0 {
            push_str(&mut all, "\n");
        }
        push_str(&mut all, turns[i].body.as_str());
        i = i + 1;
    }
    assert(bodies.take(turns.len() as int) == bodies);
    to_lowercase(all.as_str())
}

impl App {
    /// Show the conversation of session `index`, from its top.
    pub fn open_reader(&mut self, index: usize, turns: Vec<Turn>)
        requires
            old(self).wf(),
            index < old(self).sessions.len(),
        ensures
            *final(self) == (App {
                reader_index: Some(index),
                mode: Mode::Reader { turns, scroll: 0 },
                ..*old(self)
            }),
            final(self).wf(),
    {
        self.reader_index = Some(index);
        self.mode = Mode::Reader { turns, scroll: 0 };
    }

    /// Say that the bodies of all sessions are being read.
    pub fn start_load_bodies(&mut self)
        ensures
            *final(self) == (App { status: final(self).status, ..*old(self) }),
            status_is(
                *final(self),
                count_text("reading bodies ("@, old(self).sessions.len() as nat, " sessions)\u{2026}"@),
            ),
    {
        let n = self.sessions.len();
        self.status = Some(count_message("reading bodies (", n, " sessions)\u{2026}"));
    }

    /// Keep the bodies that were read, turn body scope on and say over how
    /// many sessions body search now runs.
    pub fn finish_load_bodies(&mut self, cache: BodyCache)
        ensures
            *final(self) == (App {
                status: final(self).status,
                filter: FilterState { body_cache: Some(cache), body_scope: true, ..old(self).filter },
                ..*old(self)
            }),
            status_is(
                *final(self),
                count_text("body search enabled ("@, old(self).sessions.len() as nat, " sessions)"@),
            ),
    {
        let n = self.sessions.len();
        self.filter.body_cache = Some(cache);
        self.filter.body_scope = true;
        self.status = Some(count_message("body search enabled (", n, " sessions)"));
    }

    /// The trash directory, `~/<data_dir>/.trash`, could not be located.
    pub fn trash_root_unknown(&mut self, data_dir: &str)
        ensures
            *final(self) == (App { status: final(self).status, ..*old(self) }),
            status_is(*final(self), "cannot determine ~/"@ + data_dir@ + "/.trash"@),
    {
        let mut m = String::from_str("cannot determine ~/");
        push_str(&mut m, data_dir);
        push_str(&mut m, "/.trash");
        self.status = Some(m);
    }

    /// Session `index` was moved to the trash: drop it from the list, keep
    /// the cursor on a visible row, and say so.
    pub fn delete_done(&mut self, index: usize)
        requires
            old(self).wf(),
            old(self).mode is List,
            old(self).pending_delete is None,
            index < old(self).sessions.len(),
        ensures
            final(self).sessions@ == old(self).sessions@.remove(index as int),
            final(self).selected == {
                let n = visible(*final(self)).len();
                if old(self).selected >= n {
                    if n > 0 {
                        (n - 1) as usize
                    } else {
                        0
                    }
                } else {
                    old(self).selected
                }
            },
            *final(self) == (App {
                sessions: final(self).sessions,
                selected: final(self).selected,
                status: final(self).status,
                ..*old(self)
            }),
            status_is(
                *final(self),
                "moved "@ + old(self).sessions@[index as int].session_id@ + " to trash"@,
            ),
            final(self).wf(),
    {
        let removed = self.sessions.remove(index);
        let new_count = self.filtered_indices().len();
        if self.selected >= new_count {
            self.selected = if new_count > 0 {
                new_count - 1
            } else {
                0
            };
        }
        let mut m = String::from_str("moved ");
        push_str(&mut m, removed.session_id.as_str());
        push_str(&mut m, " to trash");
        self.status = Some(m);
    }

    /// Moving a session to the trash failed for the given reason.
    pub fn delete_failed(&mut self, reason: &str)
        ensures
            *final(self) == (App { status: final(self).status, ..*old(self) }),
            status_is(*final(self), "delete failed: "@ + reason@),
    {
        let mut m = String::from_str("delete failed: ");
        push_str(&mut m, reason);
        self.status = Some(m);
    }

    /// The session that a resume applies to: the one under the cursor in
    /// the list, the one being read in the reader.
    pub open spec fn resume_index(self) -> Option<usize> {
        match self.mode {
            Mode::List => if self.selected < visible(self).len() {
                Some(visible(self)[self.selected as int])
            } else {
                None
            },
            Mode::Reader { .. } => self.reader_index,
        }
    }

    /// Where and what to resume: the working directory and id of the session
    /// that a resume applies to. Without such a session nothing happens;
    /// without a recorded cwd the status says so.
    pub fn resume_target(&mut self) -> (r: Option<(String, String)>)
        requires
            old(self).wf(),
        ensures
            match old(self).resume_index() {
                None => r is None && *final(self) == *old(self),
                Some(i) => {
                    &&& i < old(self).sessions.len()
                    &&& match old(self).sessions@[i as int].cwd {
                        None => {
                            &&& r is None
                            &&& *final(self) == (App { status: final(self).status, ..*old(self) })
                            &&& status_is(*final(self), "session has no recorded cwd"@)
                        },
                        Some(c) => {
                            &&& r matches Some(t) && t.0@ == c@
                                && t.1@ == old(self).sessions@[i as int].session_id@
                            &&& *final(self) == *old(self)
                        },
                    }
                },
            },
    {
        let real_idx = match self.mode {
            Mode::List => {
                let indices = self.filtered_indices();
                if self.selected < indices.len() {
                    Some(indices[self.selected])
                } else {
                    None
                }
            },
            Mode::Reader { .. } => self.reader_index,
        };
        let i = match real_idx {
            Some(i) => i,
            None => {
                return None;
            },
        };
        match &self.sessions[i].cwd {
            Some(c) => {
                let cwd = c.clone();
                let id = self.sessions[i].session_id.clone();
                Some((cwd, id))
            },
            None => {
                self.status = Some(String::from_str("session has no recorded cwd"));
                None
            },
        }
    }

    /// Resuming with `program` failed: the status says why.
    pub fn resume_failed(&mut self, e: &crate::resume::ResumeError, program: &str)
        ensures
            *final(self) == (App { status: final(self).status, ..*old(self) }),
            status_is(
                *final(self),
                "resume failed: "@ + crate::resume::resume_message(*e, program@),
            ),
    {
        let mut m = String::from_str("resume failed: ");
        let text = e.message(program);
        push_str(&mut m, text.as_str());
        self.status = Some(m);
    }

    /// Start drawing a frame of the given width: remember the width and, on
    /// the list, keep the cursor on a visible row and return the visible
    /// rows.
    pub fn begin_frame(&mut self, width: u16) -> (r: Option<Vec<usize>>)
        requires
            old(self).wf(),
        ensures
            match old(self).mode {
                Mode::List => {
                    let v = visible(*old(self));
                    &&& r matches Some(ix) && ix@ == v
                    &&& *final(self) == (App {
                        last_width: width,
                        selected: if old(self).selected >= v.len() {
                            if v.len() > 0 {
                                (v.len() - 1) as usize
                            } else {
                                0
                            }
                        } else {
                            old(self).selected
                        },
                        ..*old(self)
                    })
                },
                Mode::Reader { .. } => {
                    &&& r is None
                    &&& *final(self) == (App { last_width: width, ..*old(self) })
                },
            },
            final(self).wf(),
    {
        self.last_width = width;
        match self.mode {
            Mode::List => {
                let indices = self.filtered_indices();
                if self.selected >= indices.len() {
                    self.selected = if indices.len() > 0 {
                        indices.len() - 1
                    } else {
                        0
                    };
                }
                Some(indices)
            },
            Mode::Reader { .. } => None,
        }
    }
}

// ---------------------------------------------------------------------------
// Laws of the browser
// ---------------------------------------------------------------------------

/// With body scope off, the body cache plays no part in matching.
pub proof fn law_body_scope_off_ignores_cache(
    m: SessionMeta,
    q: Seq<char>,
    c1: Option<BodyCache>,
    c2: Option<BodyCache>,
)
    ensures
        session_matches(m, q, false, c1) == session_matches(m, q, false, c2),
        session_matches(m, q, false, c1) == session_matches(m, q, false, None),
{
}

/// The visible rows are sessions of the list, and a session is visible
/// exactly when the query is empty or the session matches it.
pub proof fn lemma_visible(a: App)
    ensures
        forall|i: int| 0 <= i < visible(a).len() ==> (#[trigger] visible(a)[i]) < a.sessions@.len(),
        forall|k: int|
            0 <= k < a.sessions@.len() ==> (#[trigger] visible(a).contains(k as usize) <==> (
            a.filter.query@.len() == 0 || session_matches(
                a.sessions@[k],
                lowercase(a.filter.query@),
                a.filter.body_scope,
                a.filter.body_cache,
            ))),
{
    let n = a.sessions@.len() as int;
    assert(n <= usize::MAX) by {
        assert(a.sessions@.len() == a.sessions.len());
    }
    if a.filter.query@.len() == 0 {
        assert forall|k: int| 0 <= k < n implies #[trigger] visible(a).contains(k as usize) by {
            assert(visible(a)[k] == k as usize);
        }
    } else {
        let q = lowercase(a.filter.query@);
        lemma_matching_sorted(a.sessions@, q, a.filter.body_scope, a.filter.body_cache, n);
        assert forall|k: int| 0 <= k < n implies (#[trigger] visible(a).contains(k as usize)
            <==> session_matches(a.sessions@[k], q, a.filter.body_scope, a.filter.body_cache)) by {
            lemma_matching_complete(a.sessions@, q, a.filter.body_scope, a.filter.body_cache, n, k);
        }
    }
}

/// Text that holds a needle also holds the needle without its last
/// character.
proof fn lemma_substring_of_shorter(hay: Seq<char>, needle: Seq<char>, c: char)
    requires
        has_substring(hay, needle.push(c)),
    ensures
        has_substring(hay, needle),
{
    let i = choose|i: int| occurs_at(hay, needle.push(c), i);
    assert(hay.subrange(i, i + needle.len()) =~= needle.push(c).subrange(0, needle.len() as int));
    assert(needle.push(c).subrange(0, needle.len() as int) =~= needle);
    assert(occurs_at(hay, needle, i));
}

/// Typing one more character into an ASCII query only narrows the list:
/// every session shown for the longer query was shown for the shorter one.
pub proof fn law_longer_query_narrows(a: App, b: App, c: char)
    requires
        b.sessions == a.sessions,
        b.filter.body_scope == a.filter.body_scope,
        b.filter.body_cache == a.filter.body_cache,
        b.filter.query@ == a.filter.query@.push(c),
        is_ascii(b.filter.query@),
    ensures
        forall|i: int| 0 <= i < visible(b).len() ==> visible(a).contains(#[trigger] visible(b)[i]),
{
    lemma_visible(a);
    lemma_visible(b);
    let qa = a.filter.query@;
    let qb = b.filter.query@;
    assert(is_ascii(qa)) by {
        assert forall|i: int| 0 <= i < qa.len() implies (#[trigger] qa[i] as int) < 128 by {
            assert(qa[i] == qb[i]);
        }
    }
    assert(lowercase(qb) =~= lowercase(qa).push(ascii_lower(c))) by {
        assert(qb[qa.len() as int] == c);
    }
    assert forall|i: int| 0 <= i < visible(b).len() implies visible(a).contains(
        #[trigger] visible(b)[i],
    ) by {
        let k = visible(b)[i] as int;
        assert(visible(b).contains(k as usize));
        let m = a.sessions@[k];
        let scope = a.filter.body_scope;
        let cache = a.filter.body_cache;
        if qa.len() > 0 {
            let la = lowercase(qa);
            let lb = la.push(ascii_lower(c));
            assert(session_matches(m, lb, scope, cache));
            if has_substring(lowercase(m.title@), lb) {
                lemma_substring_of_shorter(lowercase(m.title@), la, ascii_lower(c));
            } else if m.cwd is Some && has_substring(lowercase(m.cwd->Some_0@), lb) {
                lemma_substring_of_shorter(lowercase(m.cwd->Some_0@), la, ascii_lower(c));
            } else {
                let b_text = cache->Some_0.lookup(m.path@)->Some_0;
                lemma_substring_of_shorter(b_text, la, ascii_lower(c));
            }
            assert(session_matches(m, la, scope, cache));
        }
    }
}

/// Turning body search on only widens the list: every session shown
/// without it is still shown with it.
pub proof fn law_body_scope_widens(a: App, b: App)
    requires
        b.sessions == a.sessions,
        b.filter.query == a.filter.query,
        b.filter.body_cache == a.filter.body_cache,
        !a.filter.body_scope,
        b.filter.body_scope,
    ensures
        forall|i: int| 0 <= i < visible(a).len() ==> visible(b).contains(#[trigger] visible(a)[i]),
{
    lemma_visible(a);
    lemma_visible(b);
    assert forall|i: int| 0 <= i < visible(a).len() implies visible(b).contains(
        #[trigger] visible(a)[i],
    ) by {
        let k = visible(a)[i] as int;
        assert(visible(a).contains(k as usize));
    }
}

/// A title hit matches whatever the body scope and cache.
pub proof fn law_title_hit_always_matches(
    m: SessionMeta,
    q: Seq<char>,
    scope: bool,
    cache: Option<BodyCache>,
)
    requires
        has_substring(lowercase(m.title@), q),
    ensures
        session_matches(m, q, scope, cache),
{
}

/// Esc while the filter takes input clears the query, turns body scope off
/// and leaves input, but keeps the bodies that were read.
pub proof fn law_escape_resets_filter(a: App, b: App, act: Action)
    requires
        a.mode is List,
        a.pending_delete is None,
        a.filter.active,
        key_step(a, Key::Esc, b, act),
    ensures
        !b.filter.active,
        b.filter.query@.len() == 0,
        !b.filter.body_scope,
        b.filter.body_cache == a.filter.body_cache,
        b.sessions == a.sessions,
        act == Action::Nothing,
{
}

/// Enter while the filter takes input leaves input but keeps the query and
/// the body scope.
pub proof fn law_enter_keeps_filter(a: App, b: App, act: Action)
    requires
        a.mode is List,
        a.pending_delete is None,
        a.filter.active,
        key_step(a, Key::Enter, b, act),
    ensures
        !b.filter.active,
        b.filter.query == a.filter.query,
        b.filter.body_scope == a.filter.body_scope,
        b.filter.body_cache == a.filter.body_cache,
        visible(b) == visible(a),
{
}

/// `/` starts a fresh filter: empty query, body scope off, bodies kept.
pub proof fn law_slash_starts_fresh_filter(a: App, b: App, act: Action)
    requires
        a.mode is List,
        a.pending_delete is None,
        !a.filter.active,
        key_step(a, Key::Char('/'), b, act),
    ensures
        b.filter.active,
        b.filter.query@.len() == 0,
        !b.filter.body_scope,
        b.filter.body_cache == a.filter.body_cache,
        visible(b) == Seq::new(a.sessions@.len(), |i: int| i as usize),
{
}

/// Once the bodies have been read, Tab twice leaves body scope as it was,
/// and neither press asks for the bodies again.
pub proof fn law_tab_twice_restores_scope(a: App, b: App, c: App, act1: Action, act2: Action)
    requires
        a.mode is List,
        a.pending_delete is None,
        a.filter.active,
        a.filter.body_cache is Some,
        key_step(a, Key::Tab, b, act1),
        key_step(b, Key::Tab, c, act2),
    ensures
        b.filter.body_scope == !a.filter.body_scope,
        c.filter.body_scope == a.filter.body_scope,
        c.filter.query == a.filter.query,
        act1 == Action::Nothing,
        act2 == Action::Nothing,
{
}

/// Typing a character into the filter and then Backspace gives back the
/// query that was there before.
pub proof fn law_backspace_undoes_typing(a: App, ch: char, b: App, c: App, act1: Action, act2: Action)
    requires
        a.mode is List,
        a.pending_delete is None,
        a.filter.active,
        key_step(a, Key::Char(ch), b, act1),
        key_step(b, Key::Backspace, c, act2),
    ensures
        c.filter.query@ == a.filter.query@,
        c.filter.active,
        c.filter.body_scope == a.filter.body_scope,
{
    assert(b.filter.query@.drop_last() =~= a.filter.query@);
}

/// `p` flips whether the preview shows at the width of the last frame.
pub proof fn law_p_toggles_preview(a: App, b: App, act: Action)
    requires
        a.mode is List,
        a.pending_delete is None,
        !a.filter.active,
        key_step(a, Key::Char('p'), b, act),
    ensures
        preview_on(b.show_preview, b.last_width) == !preview_on(a.show_preview, a.last_width),
{
}

/// Moving the cursor keeps it on a visible row.
pub proof fn law_cursor_stays_visible(a: App, key: Key, b: App, act: Action)
    requires
        a.mode is List,
        a.pending_delete is None,
        !a.filter.active,
        key == Key::Up || key == Key::Down || key == Key::Char('j') || key == Key::Char('k'),
        a.selected < visible(a).len(),
        key_step(a, key, b, act),
    ensures
        b.selected < visible(b).len(),
        visible(b) == visible(a),
{
}

/// In the reader, a line down and a line up come back to the same offset,
/// unless the offset was already the largest.
pub proof fn law_scroll_down_up(scroll: u16)
    requires
        scroll < u16::MAX,
    ensures
        scroll_up(scroll_down(scroll, 1), 1) == scroll,
{
}

/// In a consistent state, confirming a pending deletion always asks for
/// that session to be trashed (the invalid-selection answer never comes).
pub proof fn law_confirm_trashes_pending(a: App, b: App, act: Action)
    requires
        a.wf(),
        a.mode is List,
        a.pending_delete is Some,
        key_step(a, Key::Char('y'), b, act),
    ensures
        act == (Action::Trash { index: a.pending_delete.unwrap() }),
        b.pending_delete is None,
        b.status is None,
{
}

/// Keys never change the sessions: only the front end's reports of a
/// finished deletion do.
pub proof fn law_keys_keep_sessions(a: App, key: Key, b: App, act: Action)
    requires
        key_step(a, key, b, act),
    ensures
        b.sessions == a.sessions,
{
}

/// `d` on the list asks to delete the session on the row under the cursor:
/// a session that the list shows, one that satisfies the query.
pub proof fn law_delete_asks_for_shown_session(a: App, b: App, act: Action)
    requires
        a.mode is List,
        a.pending_delete is None,
        !a.filter.active,
        a.selected < visible(a).len(),
        key_step(a, Key::Char('d'), b, act),
    ensures
        b.pending_delete == Some(visible(a)[a.selected as int]),
        b.pending_delete matches Some(i) && visible(a).contains(i) && i < a.sessions@.len() && (
        a.filter.query@.len() == 0 || session_matches(
            a.sessions@[i as int],
            lowercase(a.filter.query@),
            a.filter.body_scope,
            a.filter.body_cache,
        )),
{
    lemma_visible(a);
    let i = visible(a)[a.selected as int];
    assert(i < a.sessions@.len());
    assert(visible(a).contains((i as int) as usize));
}

/// In the list, a resume applies to the session on the row under the
/// cursor: one that the list shows and that satisfies the query; with the
/// cursor on no row, to none.
pub proof fn law_resume_applies_to_shown_session(a: App)
    requires
        a.mode is List,
    ensures
        a.selected < visible(a).len() ==> a.resume_index() == Some(visible(a)[a.selected as int]),
        a.selected >= visible(a).len() ==> a.resume_index() is None,
        a.resume_index() matches Some(i) ==> visible(a).contains(i) && i < a.sessions@.len() && (
        a.filter.query@.len() == 0 || session_matches(
            a.sessions@[i as int],
            lowercase(a.filter.query@),
            a.filter.body_scope,
            a.filter.body_cache,
        )),
{
    lemma_visible(a);
    if a.selected < visible(a).len() {
        let i = visible(a)[a.selected as int];
        assert(i < a.sessions@.len());
        assert(visible(a).contains((i as int) as usize));
    }
}

/// Enter on the list opens the session on the row under the cursor in the
/// reader, a session that the list shows; with the cursor on no row it
/// does nothing.
pub proof fn law_enter_opens_shown_session(a: App, b: App, act: Action)
    requires
        a.mode is List,
        a.pending_delete is None,
        !a.filter.active,
        key_step(a, Key::Enter, b, act),
    ensures
        a.selected < visible(a).len() ==> act == (Action::OpenReader {
            index: visible(a)[a.selected as int],
        }),
        a.selected >= visible(a).len() ==> act == Action::Nothing,
        act matches Action::OpenReader { index } ==> visible(a).contains(index) && index
            < a.sessions@.len(),
{
    lemma_visible(a);
    if a.selected < visible(a).len() {
        let i = visible(a)[a.selected as int];
        assert(i < a.sessions@.len());
        assert(visible(a).contains(i));
    }
}

/// In the reader, a resume applies to the session being read.
pub proof fn law_reader_resumes_session_read(a: App)
    requires
        a.mode is Reader,
    ensures
        a.resume_index() == a.reader_index,
{
}

} // verus!
