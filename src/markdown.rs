//! Blog posts: markdown conversion, post URLs, the list of posts newest
//! first, the neighbours of a post, and the navigation tree listing them.
use vstd::prelude::*;
use crate::text::{chars_of, push_all, same_text, string_of};

verus! {

/// What pulldown-cmark renders for a markdown text.
pub uninterp spec fn markdown_html_of(s: Seq<char>) -> Seq<char>;

/// Relies on `pulldown_cmark::Parser::new_ext` with tables, footnotes,
/// strikethrough and task lists, rendered by `pulldown_cmark::html::push_html`:
/// the HTML depends on the text alone.
#[verifier::external_body]
fn markdown_html(content: &str) -> (r: String)
    ensures
        r@ == markdown_html_of(content@),
{
    let opts = pulldown_cmark::Options::ENABLE_TABLES | pulldown_cmark::Options::ENABLE_FOOTNOTES
        | pulldown_cmark::Options::ENABLE_STRIKETHROUGH | pulldown_cmark::Options::ENABLE_TASKLISTS;
    let mut out = String::new();
    pulldown_cmark::html::push_html(&mut out, pulldown_cmark::Parser::new_ext(content, opts));
    out
}

/// The HTML of a markdown text.
pub fn markdown_to_html(content: &str) -> (r: String)
    ensures
        r@ == markdown_html_of(content@),
{
    markdown_html(content)
}

/// The front matter of a post.
#[derive(Clone, Debug)]
pub struct BlogFrontMatter {
    pub title: String,
    pub author: Option<String>,
    pub date: String,
    pub tags: Vec<String>,
    pub description: Option<String>,
    pub keywords: Option<Vec<String>>,
    pub canonical_url: Option<String>,
    pub structured_data: Option<String>,
    pub image: Option<String>,
}

/// A post: its front matter, markdown body, rendered body, site URL and
/// source file.
#[derive(Clone, Debug)]
pub struct BlogPost {
    pub front_matter: BlogFrontMatter,
    pub content: String,
    pub html_content: String,
    pub url: String,
    pub file_path: String,
}

/// `a` comes no later than `b` in character order.
pub open spec fn lex_le(a: Seq<char>, b: Seq<char>) -> bool
    decreases a.len(),
{
    if a.len() == 0 {
        true
    } else if b.len() == 0 {
        false
    } else if a[0] != b[0] {
        a[0] < b[0]
    } else {
        lex_le(a.drop_first(), b.drop_first())
    }
}

pub proof fn lemma_lex_total(a: Seq<char>, b: Seq<char>)
    ensures
        lex_le(a, b) || lex_le(b, a),
    decreases a.len(),
{
    if a.len() > 0 && b.len() > 0 && a[0] == b[0] {
        lemma_lex_total(a.drop_first(), b.drop_first());
    }
}

pub proof fn lemma_lex_reflexive(a: Seq<char>)
    ensures
        lex_le(a, a),
    decreases a.len(),
{
    if a.len() > 0 {
        lemma_lex_reflexive(a.drop_first());
    }
}

pub proof fn lemma_lex_transitive(a: Seq<char>, b: Seq<char>, c: Seq<char>)
    requires
        lex_le(a, b),
        lex_le(b, c),
    ensures
        lex_le(a, c),
    decreases a.len(),
{
    if a.len() > 0 && b.len() > 0 && c.len() > 0 && a[0] == b[0] && b[0] == c[0] {
        lemma_lex_transitive(a.drop_first(), b.drop_first(), c.drop_first());
    }
}

/// Posts ordered newest first: no post has an earlier date than one after it.
pub open spec fn newest_first(posts: Seq<BlogPost>) -> bool {
    forall|i: int, j: int| 0 <= i < j < posts.len() ==> lex_le(#[trigger] posts[j].front_matter.date@, #[trigger] posts[i].front_matter.date@)
}

/// `out` is `orig` rearranged by `p` (`out[t]` is `orig[p[t]]`), and posts
/// of equal date keep their relative order.
pub open spec fn stable_arrangement(orig: Seq<BlogPost>, out: Seq<BlogPost>, p: Seq<int>) -> bool {
    &&& p.len() == out.len() == orig.len()
    &&& forall|t: int| 0 <= t < out.len() ==> 0 <= #[trigger] p[t] < orig.len() && out[t] == orig[p[t]]
    &&& forall|a: int, b: int| 0 <= a < out.len() && 0 <= b < out.len() && a != b ==> #[trigger] p[a] != #[trigger] p[b]
    &&& forall|a: int, b: int|
        0 <= a < b < out.len() && (#[trigger] out[a]).front_matter.date@ == (#[trigger] out[b]).front_matter.date@
            ==> p[a] < p[b]
}

/// Compares two texts in character order.
pub fn text_le(a: &str, b: &str) -> (r: bool)
    ensures
        r == lex_le(a@, b@),
{
    let x = chars_of(a);
    let y = chars_of(b);
    let mut i: usize = 0;
    assert(x@.subrange(0, x.len() as int) =~= x@);
    assert(y@.subrange(0, y.len() as int) =~= y@);
    while i < x.len() && i < y.len() && x[i] == y[i]
        invariant
            i <= x.len(),
            i <= y.len(),
            lex_le(x@, y@) == lex_le(x@.subrange(i as int, x.len() as int), y@.subrange(i as int, y.len() as int)),
        decreases x.len() - i,
    {
        assert(x@.subrange(i as int, x.len() as int).drop_first() =~= x@.subrange(i + 1, x.len() as int));
        assert(y@.subrange(i as int, y.len() as int).drop_first() =~= y@.subrange(i + 1, y.len() as int));
        i = i + 1;
    }
    if i == x.len() {
        true
    } else if i == y.len() {
        false
    } else {
        x[i] < y[i]
    }
}

/// The site URL of a post: its path below the content directory, without
/// its extension, after a `/`.
pub open spec fn post_url_spec(file: Seq<char>, content_dir: Seq<char>) -> Option<Seq<char>> {
    match crate::batch::relative_to(content_dir, file) {
        Some(r) => {
            let k = crate::resolver::last_index(r, '/', r.len() as int);
            let f = r.subrange(k + 1, r.len() as int);
            let d = crate::resolver::last_index(f, '.', f.len() as int);
            Some("/"@ + if d > 0 {
                r.subrange(0, k + 1 + d)
            } else {
                r
            })
        },
        None => None,
    }
}

/// The site URL of a post, if it lies below the content directory.
pub fn post_url(file: &str, content_dir: &str) -> (r: Option<String>)
    ensures
        match r {
            Some(u) => post_url_spec(file@, content_dir@) == Some(u@),
            None => post_url_spec(file@, content_dir@).is_none(),
        },
{
    match crate::batch::relative_to_pub(content_dir, file) {
        None => None,
        Some(r) => {
            proof {
                crate::resolver::lemma_last_index_pub(r@, '/', r@.len() as int);
            }
            let k1: usize = match crate::resolver::last_index_pub(&r, '/', r.len()) {
                Some(k) => k + 1,
                None => 0,
            };
            let f = crate::resolver::slice_of(&r, k1, r.len());
            proof {
                crate::resolver::lemma_last_index_pub(f@, '.', f@.len() as int);
            }
            let body = match crate::resolver::last_index_pub(&f, '.', f.len()) {
                Some(d) => {
                    if d > 0 {
                        crate::resolver::slice_of(&r, 0, k1 + d)
                    } else {
                        crate::text::copy_text(&r)
                    }
                },
                None => crate::text::copy_text(&r),
            };
            let mut u = chars_of("/");
            push_all(&mut u, &body);
            Some(string_of(&u))
        },
    }
}

/// The links of a navigation list, one item per (url, title).
pub open spec fn nav_items(posts: Seq<(Seq<char>, Seq<char>)>) -> Seq<char>
    decreases posts.len(),
{
    if posts.len() == 0 {
        Seq::empty()
    } else {
        nav_items(posts.drop_last()) + "<li><a href=\""@ + posts.last().0 + "\">"@ + posts.last().1
            + "</a></li>"@
    }
}

pub open spec fn nav_tree(posts: Seq<(Seq<char>, Seq<char>)>) -> Seq<char> {
    "<ul class=\"nav-tree\">"@ + nav_items(posts) + "</ul>"@
}

/// The first index from `k` on of a post with this URL.
pub open spec fn position_of(posts: Seq<(Seq<char>, Seq<char>)>, url: Seq<char>, k: int) -> Option<int>
    decreases posts.len() - k,
{
    if k < 0 || k >= posts.len() {
        None
    } else if posts[k].0 == url {
        Some(k)
    } else {
        position_of(posts, url, k + 1)
    }
}

/// The posts of a blog, in their order.
pub struct BlogProcessor {
    posts: Vec<BlogPost>,
    content_dir: String,
}

impl BlogProcessor {
    /// The posts, by (url, title).
    pub closed spec fn links(&self) -> Seq<(Seq<char>, Seq<char>)> {
        self.posts@.map_values(|p: BlogPost| (p.url@, p.front_matter.title@))
    }

    pub closed spec fn dir(&self) -> Seq<char> {
        self.content_dir@
    }

    /// The posts, in order.
    pub closed spec fn posts(&self) -> Seq<BlogPost> {
        self.posts@
    }

    /// Replaces the posts by `posts`, newest first; posts of equal date keep
    /// their order.
    pub fn set_posts(&mut self, posts: Vec<BlogPost>)
        ensures
            final(self).posts().to_multiset() == posts@.to_multiset(),
            newest_first(final(self).posts()),
            exists|p: Seq<int>| stable_arrangement(posts@, final(self).posts(), p),
            final(self).dir() == old(self).dir(),
    {
        let ghost orig = posts@;
        let mut v = posts;
        let mut j: usize = 0;
        let ghost mut perm: Seq<int> = Seq::new(v.len() as nat, |t: int| t);
        while j < v.len()
            invariant
                j <= v.len(),
                orig == posts@,
                v.len() == orig.len(),
                perm.len() == v.len(),
                forall|t: int| 0 <= t < v.len() ==> 0 <= #[trigger] perm[t] < v.len() && v@[t] == orig[perm[t]],
                forall|t: int| j <= t < v.len() ==> #[trigger] perm[t] == t,
                forall|t: int| 0 <= t < j ==> #[trigger] perm[t] < j,
                forall|a: int, b: int| 0 <= a < v.len() && 0 <= b < v.len() && a != b ==> #[trigger] perm[a] != #[trigger] perm[b],
                forall|a: int, b: int|
                    0 <= a < b < j && (#[trigger] v@[a]).front_matter.date@ == (#[trigger] v@[b]).front_matter.date@
                        ==> perm[a] < perm[b],
                v@.to_multiset() == posts@.to_multiset(),
                forall|a: int, b: int|
                    0 <= a < b < j ==> lex_le(#[trigger] v@[b].front_matter.date@, #[trigger] v@[a].front_matter.date@),
            decreases v.len() - j,
        {
            let mut k: usize = 0;
            while k < j && text_le(v[j].front_matter.date.as_str(), v[k].front_matter.date.as_str())
                invariant
                    k <= j < v.len(),
                    forall|a: int| 0 <= a < k ==> lex_le(v@[j as int].front_matter.date@, #[trigger] v@[a].front_matter.date@),
                decreases j - k,
            {
                k = k + 1;
            }
            let ghost old_v = v@;
            let ghost old_p = perm;
            let x = v.remove(j);
            v.insert(k, x);
            proof {
                perm = old_p.remove(j as int).insert(k as int, old_p[j as int]);
                assert(perm.len() == v.len());
                assert forall|t: int| 0 <= t < v.len() implies 0 <= #[trigger] perm[t] < v.len() && v@[t] == orig[perm[t]] by {
                    if t < k {
                        assert(perm[t] == old_p[t] && v@[t] == old_v[t]);
                    } else if t == k {
                        assert(perm[t] == old_p[j as int] && v@[t] == old_v[j as int]);
                    } else if t <= j {
                        assert(perm[t] == old_p[t - 1] && v@[t] == old_v[t - 1]);
                    } else {
                        assert(perm[t] == old_p[t] && v@[t] == old_v[t]);
                    }
                }
                assert forall|t: int| j + 1 <= t < v.len() implies #[trigger] perm[t] == t by {
                    assert(perm[t] == old_p[t]);
                }
                assert forall|t: int| 0 <= t < j + 1 implies #[trigger] perm[t] < j + 1 by {
                    if t < k {
                        assert(perm[t] == old_p[t]);
                    } else if t == k {
                        assert(perm[t] == old_p[j as int]);
                    } else {
                        assert(perm[t] == old_p[t - 1]);
                    }
                }
                assert forall|a: int, b: int| 0 <= a < v.len() && 0 <= b < v.len() && a != b implies #[trigger] perm[a]
                    != #[trigger] perm[b] by {
                    let oa = if a < k { a } else if a == k { j as int } else if a <= j { a - 1 } else { a };
                    let ob = if b < k { b } else if b == k { j as int } else if b <= j { b - 1 } else { b };
                    assert(perm[a] == old_p[oa]);
                    assert(perm[b] == old_p[ob]);
                }
                let dx0 = x.front_matter.date@;
                assert forall|a: int, b: int|
                    0 <= a < b < j + 1 && (#[trigger] v@[a]).front_matter.date@ == (#[trigger] v@[b]).front_matter.date@
                        implies perm[a] < perm[b] by {
                    if b < k {
                        assert(v@[a] == old_v[a] && v@[b] == old_v[b]);
                        assert(perm[a] == old_p[a] && perm[b] == old_p[b]);
                    } else if b == k {
                        assert(perm[a] == old_p[a] && perm[b] == old_p[j as int]);
                    } else if a == k {
                        assert(v@[a] == x);
                        assert(v@[b] == old_v[b - 1]);
                        lemma_lex_reflexive(dx0);
                        assert(!lex_le(dx0, old_v[k as int].front_matter.date@));
                        if b - 1 > k {
                            assert(lex_le(old_v[b - 1].front_matter.date@, old_v[k as int].front_matter.date@));
                        }
                        assert(false);
                    } else if a < k {
                        assert(v@[a] == old_v[a] && v@[b] == old_v[b - 1]);
                        assert(perm[a] == old_p[a] && perm[b] == old_p[b - 1]);
                    } else {
                        assert(v@[a] == old_v[a - 1] && v@[b] == old_v[b - 1]);
                        assert(perm[a] == old_p[a - 1] && perm[b] == old_p[b - 1]);
                    }
                }
                vstd::seq_lib::to_multiset_remove(old_v, j as int);
                vstd::seq_lib::to_multiset_insert(old_v.remove(j as int), k as int, x);
                broadcast use vstd::multiset::group_multiset_axioms;
                old_v.to_multiset_ensures();
                assert(old_v[j as int] == x);
                assert(old_v.contains(x));
                assert(old_v.to_multiset().remove(x).insert(x) =~= old_v.to_multiset());
                let dx = x.front_matter.date@;
                assert forall|a: int, b: int| 0 <= a < b < j + 1 implies lex_le(
                    #[trigger] v@[b].front_matter.date@,
                    #[trigger] v@[a].front_matter.date@,
                ) by {
                    if b < k {
                        assert(v@[a] == old_v[a] && v@[b] == old_v[b]);
                    } else if b == k {
                        assert(v@[a] == old_v[a]);
                    } else if a == k {
                        assert(v@[b] == old_v[b - 1]);
                        assert(!lex_le(dx, old_v[k as int].front_matter.date@));
                        lemma_lex_total(dx, old_v[k as int].front_matter.date@);
                        if b - 1 > k {
                            lemma_lex_transitive(
                                old_v[b - 1].front_matter.date@,
                                old_v[k as int].front_matter.date@,
                                dx,
                            );
                        }
                    } else if a < k {
                        assert(v@[a] == old_v[a] && v@[b] == old_v[b - 1]);
                    } else {
                        assert(v@[a] == old_v[a - 1] && v@[b] == old_v[b - 1]);
                    }
                }
            }
            j = j + 1;
        }
        proof {
            assert(stable_arrangement(orig, v@, perm));
        }
        self.posts = v;
    }

    pub fn new(content_dir: String) -> (r: Self)
        ensures
            r.links().len() == 0,
            r.dir() == content_dir@,
    {
        BlogProcessor { posts: Vec::new(), content_dir }
    }

    /// A processor for the posts below `content_dir`; the page variables
    /// are not used by blog processing.
    pub fn with_option_components(content_dir: String, vars: Option<crate::variables::Variables>) -> (r: Self)
        ensures
            r.links().len() == 0,
            r.dir() == content_dir@,
    {
        BlogProcessor { posts: Vec::new(), content_dir }
    }

    /// Adds a post after the others.
    pub fn add_post(&mut self, post: BlogPost)
        ensures
            final(self).links() == old(self).links().push((post.url@, post.front_matter.title@)),
            final(self).dir() == old(self).dir(),
    {
        let ghost l = (post.url@, post.front_matter.title@);
        self.posts.push(post);
        assert(self.links() =~= old(self).links().push(l));
    }

    pub fn post_count(&self) -> (r: usize)
        ensures
            r == self.links().len(),
    {
        self.posts.len()
    }

    /// The indices of the posts listed before and after the post with this
    /// URL: the previous one is the next in the list, the next one the one
    /// before it.
    pub fn neighbours(&self, url: &str) -> (r: (Option<usize>, Option<usize>))
        ensures
            match position_of(self.links(), url@, 0) {
                None => r.0.is_none() && r.1.is_none(),
                Some(i) => (r.0 == if i + 1 < self.links().len() {
                    Some((i + 1) as usize)
                } else {
                    None
                }) && (r.1 == if i > 0 {
                    Some((i - 1) as usize)
                } else {
                    None
                }),
            },
    {
        let u = chars_of(url);
        let mut k: usize = 0;
        while k < self.posts.len()
            invariant
                k <= self.posts.len(),
                u@ == url@,
                position_of(self.links(), url@, 0) == position_of(self.links(), url@, k as int),
            decreases self.posts.len() - k,
        {
            let p = chars_of(self.posts[k].url.as_str());
            if same_text(&p, &u) {
                let prev = if k + 1 < self.posts.len() {
                    Some(k + 1)
                } else {
                    None
                };
                let next = if k > 0 {
                    Some(k - 1)
                } else {
                    None
                };
                return (prev, next);
            }
            k = k + 1;
        }
        (None, None)
    }

    /// The navigation list of every post, in order.
    pub fn generate_navigation_tree(&self) -> (r: String)
        ensures
            r@ == nav_tree(self.links()),
    {
        let mut out = chars_of("<ul class=\"nav-tree\">");
        let ghost head = out@;
        let mut k: usize = 0;
        while k < self.posts.len()
            invariant
                k <= self.posts.len(),
                head == "<ul class=\"nav-tree\">"@,
                out@ == head + nav_items(self.links().subrange(0, k as int)),
            decreases self.posts.len() - k,
        {
            let ghost before = out@;
            let a = chars_of("<li><a href=\"");
            push_all(&mut out, &a);
            let url = chars_of(self.posts[k].url.as_str());
            push_all(&mut out, &url);
            let b = chars_of("\">");
            push_all(&mut out, &b);
            let title = chars_of(self.posts[k].front_matter.title.as_str());
            push_all(&mut out, &title);
            let c = chars_of("</a></li>");
            push_all(&mut out, &c);
            proof {
                let s = self.links().subrange(0, k + 1);
                assert(s.drop_last() =~= self.links().subrange(0, k as int));
                assert(s.last() == self.links()[k as int]);
                assert(out@ =~= head + nav_items(s));
            }
            k = k + 1;
        }
        let tail = chars_of("</ul>");
        push_all(&mut out, &tail);
        assert(self.links().subrange(0, self.links().len() as int) =~= self.links());
        string_of(&out)
    }
}

} // verus!
