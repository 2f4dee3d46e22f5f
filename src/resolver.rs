//! Component lookup: a component name, seen from the directory of the
//! component that mentions it, is mapped to one file of the component tree.
//! Every answer, found or not, is memoized by (directory, name).
use vstd::prelude::*;
use crate::text::{chars_of, eq_ignore_case, push_range, same_ignore_case, same_text};

verus! {

/// The file extension of component files.
pub open spec fn markup_ext() -> Seq<char> {
    ".html"@
}

/// Path separators unified: every `\` becomes `/`.
pub open spec fn normalize(s: Seq<char>) -> Seq<char> {
    s.map_values(|c: char| if c == '\\' { '/' } else { c })
}

pub proof fn lemma_normalize_idempotent(s: Seq<char>)
    ensures
        normalize(normalize(s)) == normalize(s),
{
    assert(normalize(normalize(s)) =~= normalize(s));
}

/// A name with a leading separator is anchored at the components root.
pub open spec fn is_rooted(n: Seq<char>) -> bool {
    n.len() > 0 && n[0] == '/'
}

pub open spec fn bare_name(n: Seq<char>) -> Seq<char> {
    if is_rooted(n) {
        n.drop_first()
    } else {
        n
    }
}

/// The path, relative to the components root, that a name designates.
pub open spec fn target(dir: Option<Seq<char>>, n: Seq<char>) -> Seq<char> {
    if is_rooted(n) {
        n.drop_first()
    } else {
        match dir {
            Some(d) => if d.len() == 0 {
                n
            } else {
                d + seq!['/'] + n
            },
            None => n,
        }
    }
}

/// The last position before `n` that holds `c`, or -1.
pub open spec fn last_index(s: Seq<char>, c: char, n: int) -> int
    decreases n,
{
    if n <= 0 {
        -1
    } else if s[n - 1] == c {
        n - 1
    } else {
        last_index(s, c, n - 1)
    }
}

/// The last segment of a path.
pub open spec fn file_name(p: Seq<char>) -> Seq<char> {
    p.subrange(last_index(p, '/', p.len() as int) + 1, p.len() as int)
}

/// The file name without its extension (a leading dot is no extension).
pub open spec fn stem(p: Seq<char>) -> Seq<char> {
    let f = file_name(p);
    let d = last_index(f, '.', f.len() as int);
    if d > 0 {
        f.subrange(0, d)
    } else {
        f
    }
}

/// The directory part of a path, without a trailing separator.
pub open spec fn dir_of(p: Seq<char>) -> Seq<char> {
    let k = last_index(p, '/', p.len() as int);
    if k >= 0 {
        p.subrange(0, k)
    } else {
        Seq::empty()
    }
}

/// A file of the component tree: its path below the components root, and its
/// text, or `None` where it could not be read.
pub type FileView = (Seq<char>, Option<Seq<char>>);

/// The first file from index `k` on whose path is exactly `p`.
pub open spec fn find_exact(files: Seq<FileView>, p: Seq<char>, k: int) -> Option<int>
    decreases files.len() - k,
{
    if k < 0 || k >= files.len() {
        None
    } else if files[k].0 == p {
        Some(k)
    } else {
        find_exact(files, p, k + 1)
    }
}

/// The first file from index `k` on whose stem equals `n` up to ASCII case.
pub open spec fn find_stem(files: Seq<FileView>, n: Seq<char>, k: int) -> Option<int>
    decreases files.len() - k,
{
    if k < 0 || k >= files.len() {
        None
    } else if eq_ignore_case(stem(files[k].0), n) {
        Some(k)
    } else {
        find_stem(files, n, k + 1)
    }
}

/// Which file a normalized name designates from `dir`: the exact path with
/// the markup extension if there is one, else the first file, in tree order,
/// whose stem matches the name regardless of case.
pub open spec fn resolve_spec(files: Seq<FileView>, dir: Option<Seq<char>>, n: Seq<char>) -> Option<int> {
    match find_exact(files, target(dir, n) + markup_ext(), 0) {
        Some(i) => Some(i),
        None => find_stem(files, bare_name(n), 0),
    }
}

pub type CacheKey = (Option<Seq<char>>, Seq<char>);

pub open spec fn opt_int(r: Option<usize>) -> Option<int> {
    match r {
        Some(i) => Some(i as int),
        None => None,
    }
}

pub open spec fn opt_dir(d: Option<&Vec<char>>) -> Option<Seq<char>> {
    match d {
        Some(v) => Some(v@),
        None => None,
    }
}

pub open spec fn opt_text(o: Option<Vec<char>>) -> Option<Seq<char>> {
    match o {
        Some(v) => Some(v@),
        None => None,
    }
}

/// One resolution, from path cache `c0` and probe count `p0` to `c1` and `p1`,
/// answering `r`. The answer is always the one `resolve_spec` gives; the tree
/// is probed, and the answer recorded, only when the key was not cached.
pub open spec fn resolve_step(
    files: Seq<FileView>,
    c0: Map<CacheKey, Option<int>>,
    p0: nat,
    dir: Option<Seq<char>>,
    name: Seq<char>,
    c1: Map<CacheKey, Option<int>>,
    p1: nat,
    r: Option<usize>,
) -> bool {
    let key = (dir, normalize(name));
    &&& opt_int(r) == resolve_spec(files, dir, normalize(name))
    &&& c1 == c0.insert(key, opt_int(r))
    &&& c0.contains_key(key) ==> p1 == p0
    &&& !c0.contains_key(key) ==> p1 == if p0 < u64::MAX { p0 + 1 } else { p0 }
}

/// Resolving the same directory and name twice probes the component tree at
/// most once: the second call is answered from the path cache, with the same
/// answer and no probe.
pub proof fn lemma_second_resolve_is_cached(
    files: Seq<FileView>,
    c0: Map<CacheKey, Option<int>>,
    p0: nat,
    dir: Option<Seq<char>>,
    name: Seq<char>,
    c1: Map<CacheKey, Option<int>>,
    p1: nat,
    r1: Option<usize>,
    c2: Map<CacheKey, Option<int>>,
    p2: nat,
    r2: Option<usize>,
)
    requires
        resolve_step(files, c0, p0, dir, name, c1, p1, r1),
        resolve_step(files, c1, p1, dir, name, c2, p2, r2),
    ensures
        p2 == p1,
        p2 <= p0 + 1,
        opt_int(r2) == opt_int(r1),
        c2 == c1,
{
    assert(c1.contains_key((dir, normalize(name))));
    assert(c2 =~= c1);
}

proof fn lemma_find_exact(files: Seq<FileView>, p: Seq<char>, k: int)
    requires
        0 <= k,
    ensures
        find_exact(files, p, k) matches Some(i) ==> k <= i < files.len() && files[i].0 == p,
    decreases files.len() - k,
{
    if k < files.len() && files[k].0 != p {
        lemma_find_exact(files, p, k + 1);
    }
}

proof fn lemma_find_stem(files: Seq<FileView>, n: Seq<char>, k: int)
    requires
        0 <= k,
    ensures
        find_stem(files, n, k) matches Some(i) ==> k <= i < files.len(),
    decreases files.len() - k,
{
    if k < files.len() && !eq_ignore_case(stem(files[k].0), n) {
        lemma_find_stem(files, n, k + 1);
    }
}

/// A resolved index designates a file of the tree.
pub proof fn lemma_resolve_in_tree(files: Seq<FileView>, dir: Option<Seq<char>>, n: Seq<char>)
    ensures
        resolve_spec(files, dir, n) matches Some(i) ==> 0 <= i < files.len(),
{
    lemma_find_exact(files, target(dir, n) + markup_ext(), 0);
    lemma_find_stem(files, bare_name(n), 0);
}

pub proof fn lemma_last_index_pub(s: Seq<char>, c: char, n: int)
    requires
        0 <= n <= s.len(),
    ensures
        -1 <= last_index(s, c, n) < n,
{
    lemma_last_index(s, c, n);
}

proof fn lemma_last_index(s: Seq<char>, c: char, n: int)
    requires
        0 <= n <= s.len(),
    ensures
        -1 <= last_index(s, c, n) < n,
    decreases n,
{
    if n > 0 && s[n - 1] != c {
        lemma_last_index(s, c, n - 1);
    }
}

/// The last position before `n` that holds `c`.
pub fn last_index_pub(s: &Vec<char>, c: char, n: usize) -> (r: Option<usize>)
    requires
        n <= s.len(),
    ensures
        match r {
            None => last_index(s@, c, n as int) == -1,
            Some(k) => last_index(s@, c, n as int) == k as int && k < n,
        },
{
    proof {
        lemma_last_index(s@, c, n as int);
    }
    last_index_exec(s, c, n)
}

fn last_index_exec(s: &Vec<char>, c: char, n: usize) -> (r: Option<usize>)
    requires
        n <= s.len(),
    ensures
        match r {
            None => last_index(s@, c, n as int) == -1,
            Some(k) => last_index(s@, c, n as int) == k as int,
        },
{
    let mut k: usize = n;
    while k > 0 && s[k - 1] != c
        invariant
            k <= n <= s.len(),
            last_index(s@, c, n as int) == last_index(s@, c, k as int),
        decreases k,
    {
        k = k - 1;
    }
    if k == 0 {
        None
    } else {
        Some(k - 1)
    }
}

pub(crate) fn slice_of(s: &Vec<char>, from: usize, to: usize) -> (r: Vec<char>)
    requires
        from <= to <= s.len(),
    ensures
        r@ == s@.subrange(from as int, to as int),
{
    let mut r: Vec<char> = Vec::new();
    push_range(&mut r, s, from, to);
    assert(r@ =~= s@.subrange(from as int, to as int));
    r
}

/// The normalized form of a name.
pub fn normalize_exec(s: &Vec<char>) -> (r: Vec<char>)
    ensures
        r@ == normalize(s@),
{
    let mut r: Vec<char> = Vec::new();
    let mut i: usize = 0;
    while i < s.len()
        invariant
            i <= s.len(),
            r@ == normalize(s@.subrange(0, i as int)),
        decreases s.len() - i,
    {
        let c = s[i];
        r.push(if c == '\\' { '/' } else { c });
        assert(normalize(s@.subrange(0, i + 1)) =~= normalize(s@.subrange(0, i as int)).push(
            if c == '\\' { '/' } else { c },
        ));
        i = i + 1;
    }
    assert(s@.subrange(0, s.len() as int) =~= s@);
    r
}

/// The stem of a path.
pub fn stem_exec(p: &Vec<char>) -> (r: Vec<char>)
    ensures
        r@ == stem(p@),
{
    proof {
        lemma_last_index(p@, '/', p@.len() as int);
    }
    let start: usize = match last_index_exec(p, '/', p.len()) {
        Some(k) => k + 1,
        None => 0,
    };
    let f = slice_of(p, start, p.len());
    assert(f@ == file_name(p@));
    match last_index_exec(&f, '.', f.len()) {
        Some(d) => {
            if d > 0 {
                proof {
                    lemma_last_index(f@, '.', f@.len() as int);
                }
                slice_of(&f, 0, d)
            } else {
                f
            }
        },
        None => f,
    }
}

/// The directory part of a path.
pub fn dir_of_exec(p: &Vec<char>) -> (r: Vec<char>)
    ensures
        r@ == dir_of(p@),
{
    proof {
        lemma_last_index(p@, '/', p@.len() as int);
    }
    match last_index_exec(p, '/', p.len()) {
        Some(k) => slice_of(p, 0, k),
        None => Vec::new(),
    }
}

fn target_exec(dir: Option<&Vec<char>>, n: &Vec<char>) -> (r: Vec<char>)
    ensures
        r@ == target(opt_dir(dir), n@),
{
    if n.len() > 0 && n[0] == '/' {
        let r = slice_of(n, 1, n.len());
        assert(r@ =~= n@.drop_first());
        r
    } else {
        match dir {
            Some(d) => {
                if d.len() == 0 {
                    slice_of(n, 0, n.len())
                } else {
                    let mut r = slice_of(d, 0, d.len());
                    r.push('/');
                    push_range(&mut r, n, 0, n.len());
                    assert(r@ =~= d@ + seq!['/'] + n@);
                    r
                }
            },
            None => {
                let r = slice_of(n, 0, n.len());
                assert(r@ =~= n@);
                r
            },
        }
    }
}

fn bare_name_exec(n: &Vec<char>) -> (r: Vec<char>)
    ensures
        r@ == bare_name(n@),
{
    if n.len() > 0 && n[0] == '/' {
        let r = slice_of(n, 1, n.len());
        assert(r@ =~= n@.drop_first());
        r
    } else {
        let r = slice_of(n, 0, n.len());
        assert(r@ =~= n@);
        r
    }
}

/// A file of the component tree.
pub struct ComponentFile {
    pub path: Vec<char>,
    pub content: Option<Vec<char>>,
}

impl ComponentFile {
    pub open spec fn view(&self) -> FileView {
        (self.path@, opt_text(self.content))
    }
}

pub open spec fn files_view(v: Seq<ComponentFile>) -> Seq<FileView> {
    v.map_values(|f: ComponentFile| f.view())
}

struct PathCacheEntry {
    dir: Option<Vec<char>>,
    name: Vec<char>,
    hit: Option<usize>,
}

impl PathCacheEntry {
    spec fn key(&self) -> CacheKey {
        (opt_text(self.dir), self.name@)
    }
}

fn find_exact_exec(files: &Vec<ComponentFile>, p: &Vec<char>) -> (r: Option<usize>)
    ensures
        opt_int(r) == find_exact(files_view(files@), p@, 0),
{
    let ghost fv = files_view(files@);
    let mut k: usize = 0;
    while k < files.len()
        invariant
            k <= files.len(),
            fv == files_view(files@),
            find_exact(fv, p@, 0) == find_exact(fv, p@, k as int),
        decreases files.len() - k,
    {
        if same_text(&files[k].path, p) {
            return Some(k);
        }
        k = k + 1;
    }
    None
}

fn find_stem_exec(files: &Vec<ComponentFile>, n: &Vec<char>) -> (r: Option<usize>)
    ensures
        opt_int(r) == find_stem(files_view(files@), n@, 0),
{
    let ghost fv = files_view(files@);
    let mut k: usize = 0;
    while k < files.len()
        invariant
            k <= files.len(),
            fv == files_view(files@),
            find_stem(fv, n@, 0) == find_stem(fv, n@, k as int),
        decreases files.len() - k,
    {
        let s = stem_exec(&files[k].path);
        if same_ignore_case(&s, n) {
            return Some(k);
        }
        k = k + 1;
    }
    None
}

/// Looks a name up in a component tree, with no cache.
pub fn resolve_in(files: &Vec<ComponentFile>, dir: Option<&Vec<char>>, n: &Vec<char>) -> (r: Option<usize>)
    ensures
        opt_int(r) == resolve_spec(files_view(files@), opt_dir(dir), n@),
{
    let mut p = target_exec(dir, n);
    let ext = chars_of(".html");
    let ghost t = p@;
    crate::text::push_all(&mut p, &ext);
    match find_exact_exec(files, &p) {
        Some(i) => Some(i),
        None => {
            let b = bare_name_exec(n);
            find_stem_exec(files, &b)
        },
    }
}

/// The component tree together with its path cache and a count of the
/// probes of the tree that the cache did not spare.
pub struct ComponentResolver {
    files: Vec<ComponentFile>,
    entries: Vec<PathCacheEntry>,
    probes: u64,
    cached: Ghost<Map<CacheKey, Option<int>>>,
}

impl ComponentResolver {
    /// The files of the tree, in traversal order.
    pub closed spec fn files(&self) -> Seq<FileView> {
        files_view(self.files@)
    }

    /// The path cache: every (directory, name) answered so far, and its answer.
    pub closed spec fn cached(&self) -> Map<CacheKey, Option<int>> {
        self.cached@
    }

    pub closed spec fn probe_count(&self) -> nat {
        self.probes as nat
    }

    /// The cache holds exactly its entries, and each answer is the one the
    /// tree gives.
    pub closed spec fn wf(&self) -> bool {
        &&& forall|i: int|
            0 <= i < self.entries.len() ==> #[trigger] self.cached@.contains_key(self.entries@[i].key())
                && self.cached@[self.entries@[i].key()] == opt_int(self.entries@[i].hit)
        &&& forall|k: CacheKey| #[trigger]
            self.cached@.contains_key(k) ==> exists|i: int|
                0 <= i < self.entries.len() && #[trigger] self.entries@[i].key() == k
        &&& forall|k: CacheKey| #[trigger]
            self.cached@.contains_key(k) ==> self.cached@[k] == resolve_spec(
                files_view(self.files@),
                k.0,
                k.1,
            )
    }

    /// A resolver over no files, with an empty cache.
    pub fn new() -> (r: Self)
        ensures
            r.wf(),
            r.files() == Seq::<FileView>::empty(),
            r.cached() == Map::<CacheKey, Option<int>>::empty(),
            r.probe_count() == 0,
    {
        let r = ComponentResolver {
            files: Vec::new(),
            entries: Vec::new(),
            probes: 0,
            cached: Ghost(Map::empty()),
        };
        assert(r.files() =~= Seq::<FileView>::empty());
        r
    }

    /// Adds a file at the end of the traversal order. The path cache is
    /// cleared, since its answers may no longer hold.
    pub fn add_file(&mut self, path: &str, content: Option<&str>)
        ensures
            final(self).wf(),
            final(self).files() == old(self).files().push(
                (
                    normalize(path@),
                    match content {
                        Some(c) => Some(c@),
                        None => None,
                    },
                ),
            ),
            final(self).cached() == Map::<CacheKey, Option<int>>::empty(),
            final(self).probe_count() == old(self).probe_count(),
    {
        let p = normalize_exec(&chars_of(path));
        let c = match content {
            Some(t) => Some(chars_of(t)),
            None => None,
        };
        let f = ComponentFile { path: p, content: c };
        proof {
            assert(files_view(self.files@.push(f)) =~= files_view(self.files@).push(f.view()));
        }
        self.files.push(f);
        self.entries = Vec::new();
        self.cached = Ghost(Map::empty());
    }

    /// Empties the path cache.
    pub fn clear(&mut self)
        ensures
            final(self).wf(),
            final(self).files() == old(self).files(),
            final(self).cached() == Map::<CacheKey, Option<int>>::empty(),
            final(self).probe_count() == old(self).probe_count(),
    {
        self.entries = Vec::new();
        self.cached = Ghost(Map::empty());
    }

    pub fn file_count(&self) -> (r: usize)
        ensures
            r == self.files().len(),
    {
        self.files.len()
    }

    /// The number of times the tree was probed.
    pub fn probes(&self) -> (r: u64)
        ensures
            r == self.probe_count(),
    {
        self.probes
    }

    /// The path of file `i`.
    pub fn path_of(&self, i: usize) -> (r: &Vec<char>)
        requires
            i < self.files().len(),
        ensures
            r@ == self.files()[i as int].0,
    {
        &self.files[i].path
    }

    /// The text of file `i`, if it could be read.
    pub fn content_of(&self, i: usize) -> (r: &Option<Vec<char>>)
        requires
            i < self.files().len(),
        ensures
            opt_text(*r) == self.files()[i as int].1,
    {
        &self.files[i].content
    }

    fn lookup(&self, dir: &Option<Vec<char>>, n: &Vec<char>) -> (r: Option<Option<usize>>)
        requires
            self.wf(),
        ensures
            match r {
                None => !self.cached().contains_key((opt_text(*dir), n@)),
                Some(h) => self.cached().contains_key((opt_text(*dir), n@)) && self.cached()[(
                    opt_text(*dir),
                    n@,
                )] == opt_int(h),
            },
    {
        let mut i: usize = 0;
        while i < self.entries.len()
            invariant
                self.wf(),
                i <= self.entries.len(),
                forall|j: int| 0 <= j < i ==> self.entries@[j].key() != (opt_text(*dir), n@),
            decreases self.entries.len() - i,
        {
            let e = &self.entries[i];
            let same_dir = match (&e.dir, dir) {
                (Some(a), Some(b)) => same_text(a, b),
                (None, None) => true,
                _ => false,
            };
            if same_dir && same_text(&e.name, n) {
                assert(self.entries@[i as int].key() == (opt_text(*dir), n@));
                assert(self.cached@.contains_key(self.entries@[i as int].key()));
                return Some(e.hit);
            }
            i = i + 1;
        }
        None
    }

    /// The file that `name` designates from `dir`, answered from the path
    /// cache where it can be, else by probing the tree and recording the
    /// answer, found or not.
    pub fn resolve(&mut self, dir: Option<&Vec<char>>, name: &Vec<char>) -> (r: Option<usize>)
        requires
            old(self).wf(),
        ensures
            final(self).wf(),
            final(self).files() == old(self).files(),
            resolve_step(
                old(self).files(),
                old(self).cached(),
                old(self).probe_count(),
                opt_dir(dir),
                name@,
                final(self).cached(),
                final(self).probe_count(),
                r,
            ),
            r matches Some(i) ==> i < old(self).files().len(),
    {
        let n = normalize_exec(name);
        let d: Option<Vec<char>> = match dir {
            Some(v) => Some(crate::text::copy_text(v)),
            None => None,
        };
        let ghost key = (opt_dir(dir), normalize(name@));
        assert(opt_text(d) == opt_dir(dir));
        proof {
            lemma_resolve_in_tree(files_view(self.files@), opt_dir(dir), normalize(name@));
        }
        match self.lookup(&d, &n) {
            Some(h) => {
                assert(self.cached@.insert(key, opt_int(h)) =~= self.cached@);
                h
            },
            None => {
                let h = resolve_in(&self.files, dir, &n);
                if self.probes < u64::MAX {
                    self.probes = self.probes + 1;
                }
                let e = PathCacheEntry { dir: d, name: n, hit: h };
                assert(e.key() == key);
                self.entries.push(e);
                self.cached = Ghost(self.cached@.insert(key, opt_int(h)));
                proof {
                    assert forall|i: int|
                        0 <= i < self.entries.len() implies #[trigger] self.cached@.contains_key(
                        self.entries@[i].key(),
                    ) && self.cached@[self.entries@[i].key()] == opt_int(self.entries@[i].hit) by {
                        if i < self.entries.len() - 1 {
                            assert(self.entries@[i] == old(self).entries@[i]);
                        }
                    }
                    assert forall|k: CacheKey| #[trigger]
                        self.cached@.contains_key(k) implies exists|i: int|
                            0 <= i < self.entries.len() && #[trigger] self.entries@[i].key() == k by {
                        if k == key {
                            assert(self.entries@[self.entries.len() - 1].key() == k);
                        } else {
                            assert(old(self).cached@.contains_key(k));
                            let i = choose|i: int|
                                0 <= i < old(self).entries.len() && #[trigger] old(self).entries@[i].key() == k;
                            assert(self.entries@[i] == old(self).entries@[i]);
                        }
                    }
                }
                h
            },
        }
    }
}

} // verus!
