//! Component expansion. Each tag of a text is replaced, left to right, by the
//! expansion of the component it names; a component already being expanded
//! on the current inclusion chain is not expanded again but replaced by a
//! diagnostic comment, so expansion ends on every tree, cyclic or not.
use vstd::prelude::*;
use crate::resolver::{
    dir_of, dir_of_exec, lemma_resolve_in_tree, normalize, normalize_exec, opt_dir, opt_text,
    resolve_spec, ComponentResolver, FileView,
};
use crate::tag::{scan_tokens, span_seq, tags, tags_ordered, TagSpan, TokenKind};
use crate::text::{chars_of, copy_text, push_all, push_range, same_text, string_of};

verus! {

/// Comment left where a component would include itself.
pub open spec fn cycle_note(n: Seq<char>) -> Seq<char> {
    "<!-- circular dependency: "@ + n + " -->"@
}

/// Comment left where no component file answers to a name.
pub open spec fn missing_note(n: Seq<char>) -> Seq<char> {
    "<!-- component not found: "@ + n + " -->"@
}

/// Comment left where a component file exists but could not be read.
pub open spec fn unreadable_note(n: Seq<char>) -> Seq<char> {
    "<!-- component unreadable: "@ + n + " -->"@
}

/// The normalized name of a tag of `s`.
pub open spec fn tag_name(s: Seq<char>, t: (int, int, int, int)) -> Seq<char> {
    normalize(s.subrange(t.1, t.2))
}

/// `s` with its tags `ts[k..]`, from position `pos` on, replaced by `ps[k..]`.
pub open spec fn assemble(
    s: Seq<char>,
    ts: Seq<(int, int, int, int)>,
    ps: Seq<Seq<char>>,
    k: int,
    pos: int,
) -> Seq<char>
    decreases ts.len() - k,
{
    if k < 0 || k >= ts.len() {
        s.subrange(pos, s.len() as int)
    } else {
        s.subrange(pos, ts[k].0) + ps[k] + assemble(s, ts, ps, k + 1, ts[k].3)
    }
}

pub open spec fn ints(v: Seq<usize>) -> Seq<int> {
    v.map_values(|x: usize| x as int)
}

pub open spec fn texts(v: Seq<Vec<char>>) -> Seq<Seq<char>> {
    v.map_values(|x: Vec<char>| x@)
}

/// What replaces a tag naming `n`, seen from `dir`, while the names in
/// `visited` and the files in `stack` are being expanded: a cycle comment for
/// a name or a file already being expanded, a comment for a missing or
/// unreadable file, else the file's cached expansion.
pub open spec fn piece(
    files: Seq<FileView>,
    contents: Seq<Option<Seq<char>>>,
    visited: Seq<Seq<char>>,
    stack: Seq<int>,
    dir: Option<Seq<char>>,
    n: Seq<char>,
) -> Seq<char> {
    if visited.contains(n) {
        cycle_note(n)
    } else {
        match resolve_spec(files, dir, n) {
            None => missing_note(n),
            Some(i) => if stack.contains(i) {
                cycle_note(n)
            } else {
                match files[i].1 {
                    None => unreadable_note(n),
                    Some(_) => match contents[i] {
                        Some(c) => c,
                        None => Seq::empty(),
                    },
                }
            },
        }
    }
}

/// Where a tag is expanded, the expansion is in the content cache.
pub open spec fn cached_if_expanded(
    files: Seq<FileView>,
    contents: Seq<Option<Seq<char>>>,
    visited: Seq<Seq<char>>,
    stack: Seq<int>,
    dir: Option<Seq<char>>,
    n: Seq<char>,
) -> bool {
    !visited.contains(n) ==> match resolve_spec(files, dir, n) {
        Some(i) => !stack.contains(i) && files[i].1.is_some() ==> contents[i].is_some(),
        None => true,
    }
}

/// The expansion of `s`: every tag replaced by its piece.
pub open spec fn rendering(
    files: Seq<FileView>,
    contents: Seq<Option<Seq<char>>>,
    visited: Seq<Seq<char>>,
    stack: Seq<int>,
    dir: Option<Seq<char>>,
    s: Seq<char>,
) -> Seq<char> {
    let ts = tags(s);
    assemble(
        s,
        ts,
        Seq::new(ts.len(), |k: int| piece(files, contents, visited, stack, dir, tag_name(s, ts[k]))),
        0,
        0,
    )
}

/// Every tag of `s` that expands has its expansion in the content cache.
pub open spec fn settled(
    files: Seq<FileView>,
    contents: Seq<Option<Seq<char>>>,
    visited: Seq<Seq<char>>,
    stack: Seq<int>,
    dir: Option<Seq<char>>,
    s: Seq<char>,
) -> bool {
    forall|k: int|
        0 <= k < tags(s).len() ==> cached_if_expanded(
            files,
            contents,
            visited,
            stack,
            dir,
            #[trigger] tag_name(s, tags(s)[k]),
        )
}

/// The names and files being expanded when an expansion was computed.
pub type Origin = (Seq<Seq<char>>, Seq<int>);

/// Each cached expansion is the rendering of its component file, seen from
/// the file's own directory, in the context recorded for it.
pub open spec fn cache_sound(
    files: Seq<FileView>,
    contents: Seq<Option<Seq<char>>>,
    origins: Seq<Origin>,
) -> bool {
    forall|i: int|
        0 <= i < contents.len() && (#[trigger] contents[i]).is_some() ==> {
            &&& files[i].1.is_some()
            &&& contents[i] == Some(
                rendering(
                    files,
                    contents,
                    origins[i].0,
                    origins[i].1,
                    Some(dir_of(files[i].0)),
                    files[i].1.unwrap(),
                ),
            )
            &&& settled(files, contents, origins[i].0, origins[i].1, Some(dir_of(files[i].0)), files[i].1.unwrap())
        }
}

/// A settled rendering is unchanged as the content cache grows.
proof fn lemma_rendering_stable(
    files: Seq<FileView>,
    c1: Seq<Option<Seq<char>>>,
    c2: Seq<Option<Seq<char>>>,
    v: Seq<Seq<char>>,
    st: Seq<int>,
    d: Option<Seq<char>>,
    s: Seq<char>,
)
    requires
        grows(c1, c2),
        c1.len() == files.len(),
        settled(files, c1, v, st, d, s),
    ensures
        rendering(files, c1, v, st, d, s) == rendering(files, c2, v, st, d, s),
        settled(files, c2, v, st, d, s),
{
    let ts = tags(s);
    assert forall|k: int| 0 <= k < ts.len() implies piece(files, c1, v, st, d, tag_name(s, ts[k])) == piece(
        files,
        c2,
        v,
        st,
        d,
        tag_name(s, ts[k]),
    ) && cached_if_expanded(files, c2, v, st, d, #[trigger] tag_name(s, ts[k])) by {
        lemma_piece_stable(files, c1, c2, v, st, d, tag_name(s, ts[k]));
    }
    assert(Seq::new(ts.len(), |k: int| piece(files, c1, v, st, d, tag_name(s, ts[k]))) =~= Seq::new(
        ts.len(),
        |k: int| piece(files, c2, v, st, d, tag_name(s, ts[k])),
    ));
}

/// Recording a new expansion keeps the cache sound.
proof fn lemma_store_sound(
    files: Seq<FileView>,
    c1: Seq<Option<Seq<char>>>,
    o1: Seq<Origin>,
    i: int,
    out: Seq<char>,
    v: Seq<Seq<char>>,
    st: Seq<int>,
)
    requires
        cache_sound(files, c1, o1),
        c1.len() == files.len(),
        o1.len() == files.len(),
        0 <= i < files.len(),
        c1[i].is_none(),
        files[i].1.is_some(),
        out == rendering(files, c1, v, st, Some(dir_of(files[i].0)), files[i].1.unwrap()),
        settled(files, c1, v, st, Some(dir_of(files[i].0)), files[i].1.unwrap()),
    ensures
        cache_sound(files, c1.update(i, Some(out)), o1.update(i, (v, st))),
        grows(c1, c1.update(i, Some(out))),
{
    let c2 = c1.update(i, Some(out));
    let o2 = o1.update(i, (v, st));
    assert(grows(c1, c2));
    assert forall|j: int| 0 <= j < c2.len() && (#[trigger] c2[j]).is_some() implies {
        &&& files[j].1.is_some()
        &&& c2[j] == Some(
            rendering(files, c2, o2[j].0, o2[j].1, Some(dir_of(files[j].0)), files[j].1.unwrap()),
        )
        &&& settled(files, c2, o2[j].0, o2[j].1, Some(dir_of(files[j].0)), files[j].1.unwrap())
    } by {
        if j == i {
            lemma_rendering_stable(files, c1, c2, v, st, Some(dir_of(files[i].0)), files[i].1.unwrap());
        } else {
            assert(c1[j].is_some());
            lemma_rendering_stable(
                files,
                c1,
                c2,
                o1[j].0,
                o1[j].1,
                Some(dir_of(files[j].0)),
                files[j].1.unwrap(),
            );
        }
    }
}

/// The content cache only gains entries; entries once written stay.
pub open spec fn grows(a: Seq<Option<Seq<char>>>, b: Seq<Option<Seq<char>>>) -> bool {
    a.len() == b.len() && forall|i: int| 0 <= i < a.len() && (#[trigger] a[i]).is_some() ==> b[i] == a[i]
}

/// A text with no tag renders to itself.
pub proof fn lemma_no_tags_unchanged(
    files: Seq<FileView>,
    contents: Seq<Option<Seq<char>>>,
    visited: Seq<Seq<char>>,
    stack: Seq<int>,
    dir: Option<Seq<char>>,
    s: Seq<char>,
)
    requires
        tags(s).len() == 0,
    ensures
        rendering(files, contents, visited, stack, dir, s) == s,
{
    assert(s.subrange(0, s.len() as int) =~= s);
}

/// A piece already settled is unchanged as the content cache grows.
proof fn lemma_piece_stable(
    files: Seq<FileView>,
    c1: Seq<Option<Seq<char>>>,
    c2: Seq<Option<Seq<char>>>,
    vs: Seq<Seq<char>>,
    ss: Seq<int>,
    d: Option<Seq<char>>,
    n: Seq<char>,
)
    requires
        grows(c1, c2),
        c1.len() == files.len(),
        cached_if_expanded(files, c1, vs, ss, d, n),
    ensures
        piece(files, c1, vs, ss, d, n) == piece(files, c2, vs, ss, d, n),
        cached_if_expanded(files, c2, vs, ss, d, n),
{
    lemma_resolve_in_tree(files, d, n);
    if let Some(i) = resolve_spec(files, d, n) {
        if c1[i].is_some() {
            assert(c2[i] == c1[i]);
        }
    }
}

proof fn lemma_stack_bound(s: Seq<usize>, n: int)
    requires
        s.no_duplicates(),
        forall|k: int| 0 <= k < s.len() ==> s[k] < n,
        0 <= n,
    ensures
        s.len() <= n,
{
    let t = ints(s);
    assert forall|i: int, j: int| 0 <= i < t.len() && 0 <= j < t.len() && i != j implies t[i] != t[j] by {
        assert(s[i] != s[j]);
    }
    t.unique_seq_to_set();
    vstd::set_lib::lemma_int_range(0, n);
    assert(t.to_set().subset_of(vstd::set_lib::set_int_range(0, n)));
    vstd::set_lib::lemma_len_subset(t.to_set(), vstd::set_lib::set_int_range(0, n));
}

fn note(prefix: &str, n: &Vec<char>) -> (r: Vec<char>)
    ensures
        r@ == prefix@ + n@ + " -->"@,
{
    let mut r = chars_of(prefix);
    push_all(&mut r, n);
    let tail = chars_of(" -->");
    push_all(&mut r, &tail);
    r
}

fn contains_name(v: &Vec<Vec<char>>, n: &Vec<char>) -> (r: bool)
    ensures
        r == texts(v@).contains(n@),
{
    let mut i: usize = 0;
    while i < v.len()
        invariant
            i <= v.len(),
            forall|j: int| 0 <= j < i ==> v@[j]@ != n@,
        decreases v.len() - i,
    {
        if same_text(&v[i], n) {
            assert(texts(v@)[i as int] == n@);
            return true;
        }
        i = i + 1;
    }
    assert forall|j: int| 0 <= j < texts(v@).len() implies texts(v@)[j] != n@ by {
        assert(texts(v@)[j] == v@[j]@);
    }
    false
}

fn contains_index(v: &Vec<usize>, x: usize) -> (r: bool)
    ensures
        r == ints(v@).contains(x as int),
{
    let mut i: usize = 0;
    while i < v.len()
        invariant
            i <= v.len(),
            forall|j: int| 0 <= j < i ==> v@[j] != x,
        decreases v.len() - i,
    {
        if v[i] == x {
            assert(ints(v@)[i as int] == x as int);
            return true;
        }
        i = i + 1;
    }
    assert forall|j: int| 0 <= j < ints(v@).len() implies ints(v@)[j] != x as int by {
        assert(ints(v@)[j] == v@[j] as int);
    }
    false
}

/// `s` with the references at `spans` replaced by `pieces`, in order.
pub fn assemble_exec(s: &Vec<char>, spans: &Vec<TagSpan>, pieces: &Vec<Vec<char>>) -> (r: Vec<char>)
    requires
        tags_ordered(s@, span_seq(spans@)),
        pieces.len() == spans.len(),
    ensures
        r@ == assemble(s@, span_seq(spans@), texts(pieces@), 0, 0),
{
    let ghost ts = span_seq(spans@);
    let ghost ps = texts(pieces@);
    let mut out: Vec<char> = Vec::new();
    let mut pos: usize = 0;
    let mut k: usize = 0;
    while k < spans.len()
        invariant
            ps == texts(pieces@),
            span_seq(spans@) == ts,
            pieces.len() == spans.len(),
            k <= spans.len(),
            pos <= s.len(),
            k < spans.len() ==> pos <= spans@[k as int].start,
            crate::tag::tags_ordered(s@, ts),
            k == 0 ==> pos == 0,
            k > 0 ==> pos == spans@[k - 1].end,
            assemble(s@, ts, ps, 0, 0) == out@ + assemble(s@, ts, ps, k as int, pos as int),
        decreases spans.len() - k,
    {
        let t = spans[k];
        assert(ts[k as int] == t.view());
        push_range(&mut out, s, pos, t.start);
        push_all(&mut out, &pieces[k]);
        assert(ps[k as int] == pieces@[k as int]@);
        pos = t.end;
        k = k + 1;
        assert(out@ + assemble(s@, ts, ps, k as int, pos as int) =~= (out@ + assemble(s@, ts, ps, k as int, pos as int)));
    }
    push_range(&mut out, s, pos, s.len());
    out
}

/// Component expansion over a component tree, with the path cache of its
/// resolver and a content cache holding each component file's expansion.
pub struct Renderer {
    resolver: ComponentResolver,
    contents: Vec<Option<Vec<char>>>,
    origins: Ghost<Seq<Origin>>,
}

impl Renderer {
    pub closed spec fn files(&self) -> Seq<FileView> {
        self.resolver.files()
    }

    /// The content cache: for each file, its expansion once computed.
    pub closed spec fn contents(&self) -> Seq<Option<Seq<char>>> {
        self.contents@.map_values(|o: Option<Vec<char>>| opt_text(o))
    }

    pub closed spec fn resolver_view(&self) -> ComponentResolver {
        self.resolver
    }

    /// For each file, the context its cached expansion was computed in.
    pub closed spec fn origins(&self) -> Seq<Origin> {
        self.origins@
    }

    pub closed spec fn wf(&self) -> bool {
        &&& self.resolver.wf()
        &&& self.contents.len() == self.resolver.files().len()
        &&& self.origins@.len() == self.resolver.files().len()
        &&& cache_sound(self.files(), self.contents(), self.origins@)
    }

    /// A renderer over a component tree, with empty caches.
    pub fn new(resolver: ComponentResolver) -> (r: Self)
        requires
            resolver.wf(),
        ensures
            r.wf(),
            r.files() == resolver.files(),
            r.resolver_view() == resolver,
            forall|i: int| 0 <= i < r.contents().len() ==> r.contents()[i].is_none(),
    {
        let mut contents: Vec<Option<Vec<char>>> = Vec::new();
        let n = resolver.file_count();
        while contents.len() < n
            invariant
                contents.len() <= n,
                forall|i: int| 0 <= i < contents.len() ==> contents@[i].is_none(),
            decreases n - contents.len(),
        {
            contents.push(None);
        }
        let r = Renderer {
            resolver,
            contents,
            origins: Ghost(Seq::new(n as nat, |i: int| (Seq::<Seq<char>>::empty(), Seq::<int>::empty()))),
        };
        proof {
            assert forall|i: int| 0 <= i < r.contents().len() implies r.contents()[i].is_none() by {
                assert(r.contents()[i] == opt_text(r.contents@[i]));
            }
        }
        r
    }

    /// The resolver, with its path cache and probe count.
    pub fn resolver(&self) -> (r: &ComponentResolver)
        ensures
            *r == self.resolver_view(),
    {
        &self.resolver
    }

    /// Empties both caches, as a rebuild after a change must.
    pub fn clear_caches(&mut self)
        requires
            old(self).wf(),
        ensures
            final(self).wf(),
            final(self).files() == old(self).files(),
            final(self).resolver_view().cached().len() == 0,
            forall|i: int| 0 <= i < final(self).contents().len() ==> final(self).contents()[i].is_none(),
    {
        self.resolver.clear();
        let mut i: usize = 0;
        let n = self.contents.len();
        while i < n
            invariant
                self.resolver.wf(),
                self.resolver.files() == old(self).resolver.files(),
                self.resolver.cached() == Map::<crate::resolver::CacheKey, Option<int>>::empty(),
                self.origins@.len() == n,
                self.contents.len() == n,
                n == old(self).contents.len(),
                i <= n,
                forall|j: int| 0 <= j < i ==> self.contents@[j].is_none(),
            decreases n - i,
        {
            self.contents[i] = None;
            i = i + 1;
        }
    }

    /// Expands a page, seen from the components root, with no component in
    /// progress.
    pub fn render(&mut self, content: &str) -> (r: String)
        requires
            old(self).wf(),
        ensures
            final(self).wf(),
            final(self).files() == old(self).files(),
            grows(old(self).contents(), final(self).contents()),
            r@ == rendering(
                final(self).files(),
                final(self).contents(),
                Seq::empty(),
                Seq::empty(),
                None,
                content@,
            ),
            settled(
                final(self).files(),
                final(self).contents(),
                Seq::empty(),
                Seq::empty(),
                None,
                content@,
            ),
            tags(content@).len() == 0 ==> r@ == content@,
            cache_sound(final(self).files(), final(self).contents(), final(self).origins()),
    {
        let s = chars_of(content);
        let mut visited: Vec<Vec<char>> = Vec::new();
        let mut stack: Vec<usize> = Vec::new();
        proof {
            assert(texts(visited@) =~= Seq::empty());
            assert(ints(stack@) =~= Seq::empty());
        }
        let out = self.expand(&s, &mut visited, &mut stack, None);
        proof {
            if tags(content@).len() == 0 {
                lemma_no_tags_unchanged(
                    final(self).files(),
                    final(self).contents(),
                    Seq::empty(),
                    Seq::empty(),
                    None,
                    content@,
                );
            }
        }
        string_of(&out)
    }

    /// Expands `s` as seen from `dir`, while the names in `visited` and the
    /// files in `stack` are being expanded.
    pub fn expand(
        &mut self,
        s: &Vec<char>,
        visited: &mut Vec<Vec<char>>,
        stack: &mut Vec<usize>,
        dir: Option<&Vec<char>>,
    ) -> (r: Vec<char>)
        requires
            old(self).wf(),
            old(stack)@.no_duplicates(),
            forall|k: int| 0 <= k < old(stack).len() ==> old(stack)@[k] < old(self).files().len(),
        ensures
            final(self).wf(),
            final(self).files() == old(self).files(),
            final(visited)@ == old(visited)@,
            final(stack)@ == old(stack)@,
            grows(old(self).contents(), final(self).contents()),
            forall|k: int|
                0 <= k < old(stack).len() ==> final(self).contents()[old(stack)@[k] as int] == old(
                    self,
                ).contents()[old(stack)@[k] as int],
            r@ == rendering(
                old(self).files(),
                final(self).contents(),
                texts(old(visited)@),
                ints(old(stack)@),
                opt_dir(dir),
                s@,
            ),
            settled(
                old(self).files(),
                final(self).contents(),
                texts(old(visited)@),
                ints(old(stack)@),
                opt_dir(dir),
                s@,
            ),
        decreases old(self).files().len() - old(stack).len(), 2nat,
    {
        proof {
            lemma_stack_bound(stack@, self.files().len() as int);
        }
        let ghost files = self.files();
        let ghost c0 = self.contents();
        let ghost v0 = visited@;
        let ghost st0 = stack@;
        let ghost vs = texts(visited@);
        let ghost ss = ints(stack@);
        let ghost d = opt_dir(dir);
        let spans = scan_tokens(s, TokenKind::Component);
        let ghost ts = tags(s@);
        proof {
            crate::tag::lemma_tokens_ordered(s@, 0, TokenKind::Component);
        }
        let mut pieces: Vec<Vec<char>> = Vec::new();
        let mut k: usize = 0;
        while k < spans.len()
            invariant
                self.wf(),
                self.files() == files,
                files == old(self).files(),
                st0 == old(stack)@,
                visited@ == v0,
                stack@ == st0,
                vs == texts(v0),
                ss == ints(st0),
                d == opt_dir(dir),
                ts == tags(s@),
                span_seq(spans@) == ts,
                crate::tag::tags_ordered(s@, ts),
                st0.no_duplicates(),
                forall|j: int| 0 <= j < st0.len() ==> st0[j] < files.len(),
                grows(c0, self.contents()),
                forall|j: int| 0 <= j < st0.len() ==> self.contents()[st0[j] as int] == c0[st0[j] as int],
                k <= spans.len(),
                pieces.len() == k,
                forall|j: int|
                    0 <= j < k ==> (#[trigger] pieces@[j])@ == piece(files, self.contents(), vs, ss, d, tag_name(s@, ts[j]))
                        && cached_if_expanded(files, self.contents(), vs, ss, d, tag_name(s@, ts[j])),
            decreases spans.len() - k,
        {
            let t = spans[k];
            assert(ts[k as int] == t.view());
            let raw = crate::resolver::slice_of(s, t.name_start, t.name_end);
            let n = normalize_exec(&raw);
            proof {
                crate::resolver::lemma_normalize_idempotent(raw@);
            }
            let ghost before = self.contents();
            let p = self.piece_for(&n, visited, stack, dir);
            proof {
                assert forall|j: int| 0 <= j < k implies pieces@[j]@ == piece(
                    files,
                    self.contents(),
                    vs,
                    ss,
                    d,
                    tag_name(s@, ts[j]),
                ) && cached_if_expanded(files, self.contents(), vs, ss, d, tag_name(s@, ts[j])) by {
                    assert(pieces@[j]@ == piece(files, before, vs, ss, d, tag_name(s@, ts[j])));
                    lemma_piece_stable(files, before, self.contents(), vs, ss, d, tag_name(s@, ts[j]));
                }
            }
            pieces.push(p);
            k = k + 1;
        }
        let r = assemble_exec(s, &spans, &pieces);
        proof {
            assert forall|j: int| 0 <= j < ts.len() implies cached_if_expanded(
                files,
                self.contents(),
                vs,
                ss,
                d,
                #[trigger] tag_name(s@, ts[j]),
            ) by {
                assert(pieces@[j]@ == pieces@[j]@);
            }
            let ps = Seq::new(ts.len(), |j: int| piece(files, self.contents(), vs, ss, d, tag_name(s@, ts[j])));
            assert(texts(pieces@) =~= ps);
        }
        r
    }

    fn piece_for(
        &mut self,
        n: &Vec<char>,
        visited: &mut Vec<Vec<char>>,
        stack: &mut Vec<usize>,
        dir: Option<&Vec<char>>,
    ) -> (r: Vec<char>)
        requires
            old(self).wf(),
            old(stack)@.no_duplicates(),
            forall|k: int| 0 <= k < old(stack).len() ==> old(stack)@[k] < old(self).files().len(),
            n@ == normalize(n@),
        ensures
            final(self).wf(),
            final(self).files() == old(self).files(),
            final(visited)@ == old(visited)@,
            final(stack)@ == old(stack)@,
            grows(old(self).contents(), final(self).contents()),
            forall|k: int|
                0 <= k < old(stack).len() ==> final(self).contents()[old(stack)@[k] as int] == old(
                    self,
                ).contents()[old(stack)@[k] as int],
            r@ == piece(
                old(self).files(),
                final(self).contents(),
                texts(old(visited)@),
                ints(old(stack)@),
                opt_dir(dir),
                n@,
            ),
            cached_if_expanded(
                old(self).files(),
                final(self).contents(),
                texts(old(visited)@),
                ints(old(stack)@),
                opt_dir(dir),
                n@,
            ),
        decreases old(self).files().len() - old(stack).len(), 1nat,
    {
        if contains_name(visited, n) {
            return note("<!-- circular dependency: ", n);
        }
        let hit = self.resolver.resolve(dir, n);
        proof {
            assert(normalize(n@) == n@);
        }
        match hit {
            None => note("<!-- component not found: ", n),
            Some(i) => {
                if contains_index(stack, i) {
                    return note("<!-- circular dependency: ", n);
                }
                let text = match self.resolver.content_of(i) {
                    None => {
                        return note("<!-- component unreadable: ", n);
                    },
                    Some(c) => copy_text(c),
                };
                assert(self.contents()[i as int] == opt_text(self.contents@[i as int]));
                match &self.contents[i] {
                    Some(done) => {
                        return copy_text(done);
                    },
                    None => {},
                }
                let sub = dir_of_exec(self.resolver.path_of(i));
                proof {
                    assert forall|j: int| 0 <= j < stack.len() implies stack@[j] != i by {
                        assert(ints(stack@)[j] == stack@[j] as int);
                    }
                    assert(stack@.push(i).no_duplicates()) by {
                        assert forall|a: int, b: int|
                            0 <= a < stack@.push(i).len() && 0 <= b < stack@.push(i).len() && a != b implies
                            stack@.push(i)[a] != stack@.push(i)[b] by {
                            if a < stack.len() && b < stack.len() {
                                assert(stack@[a] != stack@[b]);
                            }
                        }
                    }
                    lemma_stack_bound(stack@.push(i), self.files().len() as int);
                }
                visited.push(copy_text(n));
                stack.push(i);
                let ghost v2 = texts(visited@);
                let ghost s2 = ints(stack@);
                let out = self.expand(&text, visited, stack, Some(&sub));
                let ghost c_rec = self.contents();
                visited.pop();
                stack.pop();
                assert(visited@ =~= old(visited)@);
                assert(stack@ =~= old(stack)@);
                let keep = copy_text(&out);
                proof {
                    assert(c_rec[i as int] == old(self).contents()[i as int]);
                    lemma_store_sound(self.files(), c_rec, self.origins@, i as int, out@, v2, s2);
                }
                self.contents[i] = Some(keep);
                self.origins = Ghost(self.origins@.update(i as int, (v2, s2)));
                proof {
                    assert(self.contents() =~= c_rec.update(i as int, Some(out@)));
                }
                out
            },
        }
    }
}

} // verus!
