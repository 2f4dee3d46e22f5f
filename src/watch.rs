//! Decisions of the watching development server: its states, which
//! low-level file events pass the debounce window, how an accepted event is
//! classified, what each connected client is sent for a change, and how a
//! failed rebuild is reported. Watching, timing and sending are done by the
//! caller.
use vstd::prelude::*;
use crate::resolver::{file_name, last_index, normalize, normalize_exec, slice_of};
use crate::text::{chars_of, push_all, string_of};

verus! {

/// The debounce window, in milliseconds.
pub const DEBOUNCE_MS: u64 = 100;

/// What a published change is.
#[derive(Clone, Debug)]
pub enum ChangeType {
    Create,
    Modify,
    Delete,
    /// A stylesheet changed: clients swap it without a full reload.
    CssChange,
    /// A build or processing error, with its text.
    Error(String),
}

/// A change published to every connected client.
#[derive(Clone, Debug)]
pub struct FileChange {
    pub path: String,
    pub event_type: ChangeType,
}

/// The kind of a low-level file-system event.
#[derive(Clone, Copy, Debug, PartialEq, Eq)]
pub enum RawKind {
    Create,
    Modify,
    Remove,
    Other,
}

/// The extension of a path, if its file name has one.
pub open spec fn extension(p: Seq<char>) -> Option<Seq<char>> {
    let f = file_name(normalize(p));
    let d = last_index(f, '.', f.len() as int);
    if d > 0 {
        Some(f.subrange(d + 1, f.len() as int))
    } else {
        None
    }
}

pub open spec fn is_css(p: Seq<char>) -> bool {
    extension(p) == Some("css"@)
}

/// The classification of an accepted event: a stylesheet if any of its paths
/// is one, else by its kind, anything but a creation or removal counting as
/// a modification.
pub open spec fn classify_spec(kind: RawKind, paths: Seq<Seq<char>>) -> ChangeType {
    if exists|i: int| 0 <= i < paths.len() && is_css(#[trigger] paths[i]) {
        ChangeType::CssChange
    } else {
        match kind {
            RawKind::Create => ChangeType::Create,
            RawKind::Remove => ChangeType::Delete,
            _ => ChangeType::Modify,
        }
    }
}

/// An event that touches a stylesheet is a stylesheet change, whatever its
/// kind; in particular a modified `.css` file is never a plain modification.
pub proof fn lemma_css_event_is_css_change(kind: RawKind, paths: Seq<Seq<char>>, i: int)
    requires
        0 <= i < paths.len(),
        is_css(paths[i]),
    ensures
        classify_spec(kind, paths) == ChangeType::CssChange,
        classify_spec(kind, paths) != ChangeType::Modify,
{
}

/// An event at time `now` is accepted when none was accepted before, or when
/// more than `interval` has passed since the last accepted one.
pub open spec fn accepts(last: Option<u64>, now: u64, interval: u64) -> bool {
    match last {
        None => true,
        Some(l) => now > l && now - l > interval,
    }
}

/// The time of the last accepted event after an event at `now`.
pub open spec fn next_last(last: Option<u64>, now: u64, interval: u64) -> Option<u64> {
    if accepts(last, now, interval) {
        Some(now)
    } else {
        last
    }
}

/// Of two events no further apart than the debounce interval, at most one
/// is accepted, whatever came before them.
pub proof fn lemma_debounce_at_most_one(last: Option<u64>, interval: u64, t1: u64, t2: u64)
    requires
        t1 <= t2,
        t2 - t1 <= interval,
    ensures
        !(accepts(last, t1, interval) && accepts(next_last(last, t1, interval), t2, interval)),
{
}

/// The debounce state: when the last event was accepted.
pub struct Debouncer {
    last_accepted: Option<u64>,
    interval: u64,
}

impl Debouncer {
    pub closed spec fn last(&self) -> Option<u64> {
        self.last_accepted
    }

    pub closed spec fn window(&self) -> u64 {
        self.interval
    }

    /// A debouncer with the standard window that has accepted nothing yet.
    pub fn new() -> (r: Self)
        ensures
            r.last() == None::<u64>,
            r.window() == DEBOUNCE_MS,
    {
        Debouncer { last_accepted: None, interval: DEBOUNCE_MS }
    }

    /// Decides on an event at time `now` (milliseconds on a monotonic clock).
    pub fn offer(&mut self, now: u64) -> (r: bool)
        ensures
            r == accepts(old(self).last(), now, old(self).window()),
            final(self).last() == next_last(old(self).last(), now, old(self).window()),
            final(self).window() == old(self).window(),
    {
        let ok = match self.last_accepted {
            None => true,
            Some(l) => now > l && now - l > self.interval,
        };
        if ok {
            self.last_accepted = Some(now);
        }
        ok
    }

    /// The changes to publish for a low-level event at time `now`: none if
    /// the debounce window rejects it, else one per path, all classified
    /// alike.
    pub fn process(&mut self, now: u64, kind: RawKind, paths: &Vec<String>) -> (r: Vec<FileChange>)
        ensures
            final(self).last() == next_last(old(self).last(), now, old(self).window()),
            final(self).window() == old(self).window(),
            !accepts(old(self).last(), now, old(self).window()) ==> r.len() == 0,
            accepts(old(self).last(), now, old(self).window()) ==> r.len() == paths.len() && forall|i: int|
                0 <= i < r.len() ==> (#[trigger] r@[i]).path@ == paths@[i]@ && r@[i].event_type
                    == classify_spec(kind, paths@.map_values(|p: String| p@)),
    {
        if !self.offer(now) {
            return Vec::new();
        }
        let t = classify(kind, paths);
        let mut r: Vec<FileChange> = Vec::new();
        let mut i: usize = 0;
        while i < paths.len()
            invariant
                i <= paths.len(),
                r.len() == i,
                t == classify_spec(kind, paths@.map_values(|p: String| p@)),
                forall|j: int|
                    0 <= j < i ==> (#[trigger] r@[j]).path@ == paths@[j]@ && r@[j].event_type == t,
            decreases paths.len() - i,
        {
            r.push(FileChange { path: paths[i].clone(), event_type: clone_type(&t) });
            i = i + 1;
        }
        r
    }
}

fn clone_type(t: &ChangeType) -> (r: ChangeType)
    ensures
        r == *t,
{
    match t {
        ChangeType::Create => ChangeType::Create,
        ChangeType::Modify => ChangeType::Modify,
        ChangeType::Delete => ChangeType::Delete,
        ChangeType::CssChange => ChangeType::CssChange,
        ChangeType::Error(m) => ChangeType::Error(m.clone()),
    }
}

/// Whether a path names a stylesheet.
pub fn is_css_path(p: &str) -> (r: bool)
    ensures
        r == is_css(p@),
{
    let n = normalize_exec(&chars_of(p));
    let start: usize = match crate::resolver::last_index_pub(&n, '/', n.len()) {
        Some(k) => k + 1,
        None => 0,
    };
    let f = slice_of(&n, start, n.len());
    assert(f@ == file_name(normalize(p@)));
    match crate::resolver::last_index_pub(&f, '.', f.len()) {
        Some(d) => {
            if d > 0 {
                let e = slice_of(&f, d + 1, f.len());
                let css = chars_of("css");
                crate::text::same_text(&e, &css)
            } else {
                false
            }
        },
        None => false,
    }
}

/// Classifies an accepted event.
pub fn classify(kind: RawKind, paths: &Vec<String>) -> (r: ChangeType)
    ensures
        r == classify_spec(kind, paths@.map_values(|p: String| p@)),
{
    let ghost ps = paths@.map_values(|p: String| p@);
    let mut i: usize = 0;
    while i < paths.len()
        invariant
            i <= paths.len(),
            ps == paths@.map_values(|p: String| p@),
            forall|j: int| 0 <= j < i ==> !is_css(#[trigger] ps[j]),
        decreases paths.len() - i,
    {
        if is_css_path(paths[i].as_str()) {
            assert(is_css(ps[i as int]));
            return ChangeType::CssChange;
        }
        i = i + 1;
    }
    match kind {
        RawKind::Create => ChangeType::Create,
        RawKind::Remove => ChangeType::Delete,
        _ => ChangeType::Modify,
    }
}

/// A lower-case hexadecimal digit.
pub open spec fn hex_digit(d: nat) -> char {
    if d < 10 {
        ((d + 48) as u8) as char
    } else {
        ((d + 87) as u8) as char
    }
}

fn hex_digit_exec(d: u8) -> (r: char)
    requires
        d < 16,
    ensures
        r == hex_digit(d as nat),
{
    if d < 10 {
        (d + 48) as char
    } else {
        (d + 87) as char
    }
}

/// JSON string escaping of one character: quote, backslash, newline,
/// carriage return and tab by their short forms, any other character below
/// U+0020 as `\u00XX`.
pub open spec fn esc(c: char) -> Seq<char> {
    if c == '"' {
        seq!['\\', '"']
    } else if c == '\\' {
        seq!['\\', '\\']
    } else if c == '\n' {
        seq!['\\', 'n']
    } else if c == '\r' {
        seq!['\\', 'r']
    } else if c == '\t' {
        seq!['\\', 't']
    } else if (c as u32) < 32 {
        seq!['\\', 'u', '0', '0', hex_digit((c as u32 / 16) as nat), hex_digit((c as u32 % 16) as nat)]
    } else {
        seq![c]
    }
}

/// JSON string escaping of a text.
pub open spec fn json_escape(s: Seq<char>) -> Seq<char>
    decreases s.len(),
{
    if s.len() == 0 {
        Seq::empty()
    } else {
        json_escape(s.drop_last()) + esc(s.last())
    }
}

fn push_escaped(out: &mut Vec<char>, s: &str)
    ensures
        final(out)@ == old(out)@ + json_escape(s@),
{
    let v = chars_of(s);
    let mut i: usize = 0;
    while i < v.len()
        invariant
            i <= v.len(),
            v@ == s@,
            out@ == old(out)@ + json_escape(v@.subrange(0, i as int)),
        decreases v.len() - i,
    {
        let c = v[i];
        let ghost before = out@;
        if c == '"' {
            out.push('\\');
            out.push('"');
        } else if c == '\\' {
            out.push('\\');
            out.push('\\');
        } else if c == '\n' {
            out.push('\\');
            out.push('n');
        } else if c == '\r' {
            out.push('\\');
            out.push('r');
        } else if c == '\t' {
            out.push('\\');
            out.push('t');
        } else if (c as u32) < 32 {
            let u: u32 = c as u32;
            out.push('\\');
            out.push('u');
            out.push('0');
            out.push('0');
            out.push(hex_digit_exec((u / 16) as u8));
            out.push(hex_digit_exec((u % 16) as u8));
        } else {
            out.push(c);
        }
        assert(out@ =~= before + esc(c));
        assert(v@.subrange(0, i + 1).drop_last() =~= v@.subrange(0, i as int));
        i = i + 1;
    }
    assert(v@.subrange(0, v@.len() as int) =~= v@);
}

/// The text a client is sent for a change: a stylesheet swap naming the
/// path, an error overlay with the message, or a plain reload.
pub open spec fn message_of(kind: ChangeType, path: Seq<char>) -> Seq<char> {
    match kind {
        ChangeType::CssChange => "{\"type\":\"css\",\"path\":\""@ + json_escape(path) + "\"}"@,
        ChangeType::Error(m) => "{\"type\":\"error\",\"message\":\""@ + json_escape(m@) + "\"}"@,
        _ => "reload"@,
    }
}

/// The message each connected client is sent for a change.
pub fn client_message(change: &FileChange) -> (r: String)
    ensures
        r@ == message_of(change.event_type, change.path@),
{
    match &change.event_type {
        ChangeType::CssChange => {
            let mut out = chars_of("{\"type\":\"css\",\"path\":\"");
            push_escaped(&mut out, change.path.as_str());
            let tail = chars_of("\"}");
            push_all(&mut out, &tail);
            string_of(&out)
        },
        ChangeType::Error(m) => {
            let mut out = chars_of("{\"type\":\"error\",\"message\":\"");
            push_escaped(&mut out, m.as_str());
            let tail = chars_of("\"}");
            push_all(&mut out, &tail);
            string_of(&out)
        },
        _ => string_of(&chars_of("reload")),
    }
}

/// What the server does after a low-level event: publish these changes,
/// and, if `rebuild`, clear the renderer's caches and build again first.
pub struct WatchStep {
    pub changes: Vec<FileChange>,
    pub rebuild: bool,
}

pub open spec fn texts_of(v: Seq<String>) -> Seq<Seq<char>> {
    v.map_values(|s: String| s@)
}

/// Where the server is. An event is weighed by the debouncer while
/// watching; a failed rebuild is reported and the server goes back to
/// watching, so no state is final.
#[derive(Clone, Copy, Debug, PartialEq, Eq)]
pub enum ServerState {
    Idle,
    Watching,
    Rebuilding,
}

/// The state of a watching session: where the server is, the debounce
/// state, and the set of files changed since it was last cleared.
pub struct DevSession {
    state: ServerState,
    debouncer: Debouncer,
    changed: Vec<String>,
}

impl DevSession {
    pub closed spec fn phase(&self) -> ServerState {
        self.state
    }

    pub fn state(&self) -> (r: ServerState)
        ensures
            r == self.phase(),
    {
        self.state
    }

    /// The directories exist and the watcher is armed.
    pub fn start_watching(&mut self)
        requires
            old(self).phase() == ServerState::Idle,
        ensures
            final(self).phase() == ServerState::Watching,
            final(self).last() == old(self).last(),
            final(self).window() == old(self).window(),
            final(self).changed() == old(self).changed(),
    {
        self.state = ServerState::Watching;
    }

    pub closed spec fn last(&self) -> Option<u64> {
        self.debouncer.last()
    }

    pub closed spec fn window(&self) -> u64 {
        self.debouncer.window()
    }

    /// The files changed since the set was last cleared.
    pub closed spec fn changed(&self) -> Set<Seq<char>> {
        texts_of(self.changed@).to_set()
    }

    pub fn new() -> (r: Self)
        ensures
            r.phase() == ServerState::Idle,
            r.last() == None::<u64>,
            r.window() == DEBOUNCE_MS,
            r.changed() == Set::<Seq<char>>::empty(),
    {
        let r = DevSession { state: ServerState::Idle, debouncer: Debouncer::new(), changed: Vec::new() };
        assert(r.changed() =~= Set::<Seq<char>>::empty());
        r
    }

    /// Handles a low-level event at time `now` while watching. An accepted
    /// event's paths join the changed set and are published, after a
    /// rebuild from empty caches; a rejected one changes nothing.
    pub fn handle_event(&mut self, now: u64, kind: RawKind, paths: &Vec<String>) -> (r: WatchStep)
        requires
            old(self).phase() == ServerState::Watching,
        ensures
            final(self).phase() == if r.rebuild {
                ServerState::Rebuilding
            } else {
                ServerState::Watching
            },
            final(self).last() == next_last(old(self).last(), now, old(self).window()),
            final(self).window() == old(self).window(),
            !accepts(old(self).last(), now, old(self).window()) ==> r.changes.len() == 0 && !r.rebuild
                && final(self).changed() == old(self).changed(),
            accepts(old(self).last(), now, old(self).window()) ==> r.changes.len() == paths.len() && (
            r.rebuild == (paths.len() > 0)) && final(self).changed() == old(self).changed().union(
                texts_of(paths@).to_set(),
            ) && forall|i: int|
                0 <= i < r.changes.len() ==> (#[trigger] r.changes@[i]).path@ == paths@[i]@
                    && r.changes@[i].event_type == classify_spec(kind, texts_of(paths@)),
    {
        let changes = self.debouncer.process(now, kind, paths);
        proof {
            assert(texts_of(paths@) =~= paths@.map_values(|p: String| p@));
        }
        if changes.len() == 0 && paths.len() > 0 {
            return WatchStep { changes, rebuild: false };
        }
        let ghost before = texts_of(self.changed@);
        let ghost d1 = self.debouncer;
        let ghost s1 = self.state;
        let mut i: usize = 0;
        while i < paths.len()
            invariant
                self.debouncer == d1,
                self.state == s1,
                i <= paths.len(),
                texts_of(self.changed@).to_set() == before.to_set().union(
                    texts_of(paths@.subrange(0, i as int)).to_set(),
                ),
            decreases paths.len() - i,
        {
            let ghost pre = texts_of(self.changed@);
            if !self.contains(&paths[i]) {
                self.changed.push(paths[i].clone());
                proof {
                    assert(texts_of(self.changed@) =~= pre.push(paths@[i as int]@));
                    pre.lemma_push_to_set_commute(paths@[i as int]@);
                }
            } else {
                proof {
                    assert(pre.to_set().contains(paths@[i as int]@));
                }
            }
            proof {
                let q = texts_of(paths@.subrange(0, i + 1));
                assert(q =~= texts_of(paths@.subrange(0, i as int)).push(paths@[i as int]@));
                texts_of(paths@.subrange(0, i as int)).lemma_push_to_set_commute(paths@[i as int]@);
                assert(texts_of(self.changed@).to_set() =~= before.to_set().union(q.to_set()));
            }
            i = i + 1;
        }
        assert(paths@.subrange(0, paths.len() as int) =~= paths@);
        let rebuild = paths.len() > 0;
        if rebuild {
            self.state = ServerState::Rebuilding;
        }
        WatchStep { changes, rebuild }
    }

    fn contains(&self, p: &String) -> (r: bool)
        ensures
            r == texts_of(self.changed@).to_set().contains(p@),
    {
        let mut i: usize = 0;
        while i < self.changed.len()
            invariant
                i <= self.changed.len(),
                forall|j: int| 0 <= j < i ==> self.changed@[j]@ != p@,
            decreases self.changed.len() - i,
        {
            let a = crate::text::chars_of(self.changed[i].as_str());
            let b = crate::text::chars_of(p.as_str());
            if crate::text::same_text(&a, &b) {
                assert(texts_of(self.changed@)[i as int] == p@);
                return true;
            }
            i = i + 1;
        }
        assert(!texts_of(self.changed@).contains(p@)) by {
            assert forall|j: int| 0 <= j < texts_of(self.changed@).len() implies texts_of(self.changed@)[j] != p@ by {
                assert(texts_of(self.changed@)[j] == self.changed@[j]@);
            }
        }
        false
    }

    /// The files changed since the set was last cleared, each once.
    pub fn get_changed_files(&self) -> (r: Vec<String>)
        ensures
            texts_of(r@).to_set() == self.changed(),
    {
        let mut r: Vec<String> = Vec::new();
        let mut i: usize = 0;
        while i < self.changed.len()
            invariant
                i <= self.changed.len(),
                r@ == self.changed@.subrange(0, i as int),
            decreases self.changed.len() - i,
        {
            r.push(self.changed[i].clone());
            assert(r@ =~= self.changed@.subrange(0, i + 1));
            i = i + 1;
        }
        assert(self.changed@.subrange(0, self.changed.len() as int) =~= self.changed@);
        r
    }

    pub fn clear_changed_files(&mut self)
        ensures
            final(self).changed() == Set::<Seq<char>>::empty(),
            final(self).phase() == old(self).phase(),
            final(self).last() == old(self).last(),
            final(self).window() == old(self).window(),
    {
        self.changed = Vec::new();
        assert(self.changed() =~= Set::<Seq<char>>::empty());
    }

    /// What a finished rebuild publishes: its failure, if it failed. Either
    /// way the server watches again.
    pub fn rebuild_finished(&mut self, result: &Result<(), crate::batch::BuildError>) -> (r: Option<FileChange>)
        ensures
            final(self).phase() == ServerState::Watching,
            final(self).last() == old(self).last(),
            final(self).window() == old(self).window(),
            final(self).changed() == old(self).changed(),
            result.is_ok() ==> r.is_none(),
            result matches Err(e) ==> r matches Some(c) && c.path@ == e.file@ && c.event_type == ChangeType::Error(
                c.event_type->Error_0,
            ) && (c.event_type->Error_0)@ == error_text(e.message@, Some(e.file@)),
    {
        self.state = ServerState::Watching;
        match result {
            Ok(()) => None,
            Err(e) => Some(error_change(e.message.as_str(), Some(e.file.as_str()))),
        }
    }
}

/// The text of a build error report.
pub open spec fn error_text(message: Seq<char>, location: Option<Seq<char>>) -> Seq<char> {
    "Build Error: "@ + message + "\n\nLocation: "@ + match location {
        Some(l) => l,
        None => "Unknown"@,
    }
}

/// The change published for a failed build or rebuild, so that every client
/// shows it: its path is the failing file, or `unknown`.
pub fn error_change(message: &str, file_path: Option<&str>) -> (r: FileChange)
    ensures
        r.event_type == ChangeType::Error(r.event_type->Error_0),
        (r.event_type->Error_0)@ == error_text(
            message@,
            match file_path {
                Some(l) => Some(l@),
                None => None,
            },
        ),
        r.path@ == match file_path {
            Some(l) => l@,
            None => "unknown"@,
        },
{
    let mut out = chars_of("Build Error: ");
    let m = chars_of(message);
    push_all(&mut out, &m);
    let mid = chars_of("\n\nLocation: ");
    push_all(&mut out, &mid);
    let (loc, path) = match file_path {
        Some(l) => (chars_of(l), chars_of(l)),
        None => (chars_of("Unknown"), chars_of("unknown")),
    };
    push_all(&mut out, &loc);
    FileChange { path: string_of(&path), event_type: ChangeType::Error(string_of(&out)) }
}

} // verus!
