//! The reference grammars. A component tag is `<component`, one or more
//! spaces, `name=`, a quote (`"` or `'`), a non-empty name holding no quote,
//! a quote, optional spaces, `/>`. A variable reference is `@{var(`, a
//! quote, a non-empty name holding no quote, a quote, `)}`. References are
//! found left to right and never overlap.
use vstd::prelude::*;

verus! {

/// ASCII white space, as the tag grammar's `\s`.
pub open spec fn is_space(c: char) -> bool {
    c == ' ' || c == '\t' || c == '\n' || c == '\r' || c == '\x0B' || c == '\x0C'
}

pub open spec fn is_quote(c: char) -> bool {
    c == '"' || c == '\''
}

pub open spec fn keyword() -> Seq<char> {
    seq!['<', 'c', 'o', 'm', 'p', 'o', 'n', 'e', 'n', 't']
}

pub open spec fn name_attr() -> Seq<char> {
    seq!['n', 'a', 'm', 'e', '=']
}

pub open spec fn tag_close() -> Seq<char> {
    seq!['/', '>']
}

/// `lit` occurs in `s` at position `i`.
pub open spec fn lit_at(s: Seq<char>, i: int, lit: Seq<char>) -> bool {
    0 <= i && i + lit.len() <= s.len() && s.subrange(i, i + lit.len()) == lit
}

/// End of the run of spaces that starts at `j`.
pub open spec fn space_end(s: Seq<char>, j: int) -> int
    decreases s.len() - j,
{
    if 0 <= j < s.len() && is_space(s[j]) {
        space_end(s, j + 1)
    } else {
        j
    }
}

/// End of the run of non-quote characters that starts at `j`.
pub open spec fn name_end(s: Seq<char>, j: int) -> int
    decreases s.len() - j,
{
    if 0 <= j < s.len() && !is_quote(s[j]) {
        name_end(s, j + 1)
    } else {
        j
    }
}

/// The tag that starts at `i`, if any: where its name starts, where the name
/// ends, and where the tag ends (exclusive).
pub open spec fn tag_at(s: Seq<char>, i: int) -> Option<(int, int, int)> {
    if !lit_at(s, i, keyword()) {
        None
    } else {
        let a = i + 10;
        let b = space_end(s, a);
        if b == a || !lit_at(s, b, name_attr()) || !(b + 5 < s.len() && is_quote(s[b + 5])) {
            None
        } else {
            let ns = b + 6;
            let ne = name_end(s, ns);
            if ne == ns || ne >= s.len() {
                None
            } else {
                let c = space_end(s, ne + 1);
                if lit_at(s, c, tag_close()) {
                    Some((ns, ne, c + 2))
                } else {
                    None
                }
            }
        }
    }
}

pub open spec fn var_open() -> Seq<char> {
    seq!['@', '{', 'v', 'a', 'r', '(']
}

pub open spec fn var_close() -> Seq<char> {
    seq![')', '}']
}

/// The variable reference `@{var("NAME")}` (either quote) that starts at
/// `i`, if any: where its name starts, where it ends, and where the
/// reference ends.
pub open spec fn var_at(s: Seq<char>, i: int) -> Option<(int, int, int)> {
    if !lit_at(s, i, var_open()) || !(i + 6 < s.len() && is_quote(s[i + 6])) {
        None
    } else {
        let ns = i + 7;
        let ne = name_end(s, ns);
        if ne == ns || ne >= s.len() || !lit_at(s, ne + 1, var_close()) {
            None
        } else {
            Some((ns, ne, ne + 3))
        }
    }
}

/// The two kinds of reference that are replaced in a text.
#[derive(Clone, Copy, Debug, PartialEq, Eq)]
pub enum TokenKind {
    Component,
    Variable,
}

pub open spec fn token_at(s: Seq<char>, i: int, k: TokenKind) -> Option<(int, int, int)> {
    match k {
        TokenKind::Component => tag_at(s, i),
        TokenKind::Variable => var_at(s, i),
    }
}

/// The first position at or after `i` where a reference starts.
pub open spec fn next_token(s: Seq<char>, i: int, k: TokenKind) -> Option<int>
    decreases s.len() - i,
{
    if i < 0 || i >= s.len() {
        None
    } else if token_at(s, i, k).is_some() {
        Some(i)
    } else {
        next_token(s, i + 1, k)
    }
}

/// All references of `s` from position `i` on, scanning left to right:
/// start, name start, name end, end of each.
pub open spec fn tokens_from(s: Seq<char>, i: int, k: TokenKind) -> Seq<(int, int, int, int)>
    decreases s.len() - i,
{
    if i < 0 || i > s.len() {
        Seq::empty()
    } else {
        match next_token(s, i, k) {
            None => Seq::empty(),
            Some(j) => match token_at(s, j, k) {
                Some(t) => if i < t.2 <= s.len() {
                    seq![(j, t.0, t.1, t.2)] + tokens_from(s, t.2, k)
                } else {
                    Seq::empty()
                },
                None => Seq::empty(),
            },
        }
    }
}

/// The component tags of a whole text.
pub open spec fn tags(s: Seq<char>) -> Seq<(int, int, int, int)> {
    tokens_from(s, 0, TokenKind::Component)
}

/// The variable references of a whole text.
pub open spec fn var_refs(s: Seq<char>) -> Seq<(int, int, int, int)> {
    tokens_from(s, 0, TokenKind::Variable)
}

/// A tag found in a text, by positions.
#[derive(Clone, Copy, Debug, PartialEq, Eq)]
pub struct TagSpan {
    pub start: usize,
    pub name_start: usize,
    pub name_end: usize,
    pub end: usize,
}

impl TagSpan {
    pub open spec fn view(self) -> (int, int, int, int) {
        (self.start as int, self.name_start as int, self.name_end as int, self.end as int)
    }
}

pub open spec fn span_seq(v: Seq<TagSpan>) -> Seq<(int, int, int, int)> {
    v.map_values(|t: TagSpan| t.view())
}

proof fn lemma_space_end(s: Seq<char>, j: int)
    requires
        0 <= j <= s.len(),
    ensures
        j <= space_end(s, j) <= s.len(),
    decreases s.len() - j,
{
    if 0 <= j < s.len() && is_space(s[j]) {
        lemma_space_end(s, j + 1);
    }
}

proof fn lemma_name_end(s: Seq<char>, j: int)
    requires
        0 <= j <= s.len(),
    ensures
        j <= name_end(s, j) <= s.len(),
        name_end(s, j) < s.len() ==> is_quote(s[name_end(s, j)]),
    decreases s.len() - j,
{
    if 0 <= j < s.len() && !is_quote(s[j]) {
        lemma_name_end(s, j + 1);
    }
}

/// The positions of a reference are ordered and lie inside the text.
pub proof fn lemma_token_bounds(s: Seq<char>, i: int, k: TokenKind)
    requires
        token_at(s, i, k).is_some(),
    ensures
        i < token_at(s, i, k).unwrap().0 < token_at(s, i, k).unwrap().1 < token_at(s, i, k).unwrap().2
            <= s.len(),
        0 <= i,
{
    match k {
        TokenKind::Component => {
            lemma_space_end(s, i + 10);
            let b = space_end(s, i + 10);
            lemma_name_end(s, b + 6);
            let ne = name_end(s, b + 6);
            lemma_space_end(s, ne + 1);
        },
        TokenKind::Variable => {
            lemma_name_end(s, i + 7);
        },
    }
}

pub proof fn lemma_next_token(s: Seq<char>, i: int, k: TokenKind)
    requires
        0 <= i,
    ensures
        next_token(s, i, k) matches Some(j) ==> i <= j && token_at(s, j, k).is_some(),
    decreases s.len() - i,
{
    if i < s.len() && token_at(s, i, k).is_none() {
        lemma_next_token(s, i + 1, k);
    }
}

/// The tags of a text are ordered, do not overlap, and lie inside it.
pub open spec fn tags_ordered(s: Seq<char>, ts: Seq<(int, int, int, int)>) -> bool {
    &&& forall|k: int|
        0 <= k < ts.len() ==> 0 <= (#[trigger] ts[k]).0 < ts[k].1 < ts[k].2 < ts[k].3 <= s.len()
    &&& forall|k: int| 0 < k < ts.len() ==> ts[k - 1].3 <= (#[trigger] ts[k]).0
}

pub proof fn lemma_tokens_ordered(s: Seq<char>, i: int, kind: TokenKind)
    requires
        0 <= i <= s.len(),
    ensures
        tags_ordered(s, tokens_from(s, i, kind)),
        forall|k: int| 0 <= k < tokens_from(s, i, kind).len() ==> i <= (#[trigger] tokens_from(s, i, kind)[k]).0,
    decreases s.len() - i,
{
    lemma_next_token(s, i, kind);
    match next_token(s, i, kind) {
        Some(j) => {
            lemma_token_bounds(s, j, kind);
            let t = token_at(s, j, kind).unwrap();
            lemma_tokens_ordered(s, t.2, kind);
            let rest = tokens_from(s, t.2, kind);
            let all = tokens_from(s, i, kind);
            assert(all == seq![(j, t.0, t.1, t.2)] + rest);
            assert forall|k: int| 0 < k < all.len() implies all[k - 1].3 <= (#[trigger] all[k]).0 by {
                assert(all[k] == rest[k - 1]);
                if k > 1 {
                    assert(all[k - 1] == rest[k - 2]);
                }
            }
            assert forall|k: int| 0 <= k < all.len() implies i <= (#[trigger] all[k]).0 by {
                if k > 0 {
                    assert(all[k] == rest[k - 1]);
                }
            }
        },
        None => {},
    }
}

/// The references of a whole text are ordered and lie inside it.
pub proof fn tokens_ordered_lemma(s: Seq<char>, kind: TokenKind)
    ensures
        tags_ordered(s, tokens_from(s, 0, kind)),
{
    lemma_tokens_ordered(s, 0, kind);
}

fn space_end_exec(s: &Vec<char>, j: usize) -> (r: usize)
    requires
        j <= s.len(),
    ensures
        r as int == space_end(s@, j as int),
{
    let mut k: usize = j;
    while k < s.len() && is_space_exec(s[k])
        invariant
            j <= k <= s.len(),
            space_end(s@, j as int) == space_end(s@, k as int),
        decreases s.len() - k,
    {
        k = k + 1;
    }
    k
}

fn name_end_exec(s: &Vec<char>, j: usize) -> (r: usize)
    requires
        j <= s.len(),
    ensures
        r as int == name_end(s@, j as int),
{
    let mut k: usize = j;
    while k < s.len() && !is_quote_exec(s[k])
        invariant
            j <= k <= s.len(),
            name_end(s@, j as int) == name_end(s@, k as int),
        decreases s.len() - k,
    {
        k = k + 1;
    }
    k
}

fn is_space_exec(c: char) -> (r: bool)
    ensures
        r == is_space(c),
{
    c == ' ' || c == '\t' || c == '\n' || c == '\r' || c == '\x0B' || c == '\x0C'
}

fn is_quote_exec(c: char) -> (r: bool)
    ensures
        r == is_quote(c),
{
    c == '"' || c == '\''
}

pub(crate) fn lit_at_exec(s: &Vec<char>, i: usize, lit: &Vec<char>) -> (r: bool)
    ensures
        r == lit_at(s@, i as int, lit@),
{
    if i > s.len() || lit.len() > s.len() - i {
        return false;
    }
    let mut k: usize = 0;
    while k < lit.len()
        invariant
            i + lit.len() <= s.len(),
            k <= lit.len(),
            forall|m: int| 0 <= m < k ==> s@[i + m] == lit@[m],
        decreases lit.len() - k,
    {
        if s[i + k] != lit[k] {
            assert(s@.subrange(i as int, i + lit.len())[k as int] != lit@[k as int]);
            return false;
        }
        k = k + 1;
    }
    assert(s@.subrange(i as int, i + lit.len()) =~= lit@);
    true
}

/// The tag that starts at `i`, if any, as `tag_at` describes it.
pub fn match_tag_at(s: &Vec<char>, i: usize) -> (r: Option<TagSpan>)
    requires
        i <= s.len(),
    ensures
        match r {
            None => tag_at(s@, i as int).is_none(),
            Some(t) => t.start == i && tag_at(s@, i as int) == Some(
                (t.name_start as int, t.name_end as int, t.end as int),
            ),
        },
{
    let kw: Vec<char> = vec!['<', 'c', 'o', 'm', 'p', 'o', 'n', 'e', 'n', 't'];
    assert(kw@ =~= keyword());
    if !lit_at_exec(s, i, &kw) {
        return None;
    }
    let a: usize = i + 10;
    let b = space_end_exec(s, a);
    let attr: Vec<char> = vec!['n', 'a', 'm', 'e', '='];
    assert(attr@ =~= name_attr());
    if b == a || !lit_at_exec(s, b, &attr) || !(b + 5 < s.len() && is_quote_exec(s[b + 5])) {
        return None;
    }
    let ns: usize = b + 6;
    let ne = name_end_exec(s, ns);
    if ne == ns || ne >= s.len() {
        return None;
    }
    let c = space_end_exec(s, ne + 1);
    let close: Vec<char> = vec!['/', '>'];
    assert(close@ =~= tag_close());
    if lit_at_exec(s, c, &close) {
        Some(TagSpan { start: i, name_start: ns, name_end: ne, end: c + 2 })
    } else {
        None
    }
}

/// The variable reference that starts at `i`, if any, as `var_at` describes it.
pub fn match_var_at(s: &Vec<char>, i: usize) -> (r: Option<TagSpan>)
    requires
        i <= s.len(),
    ensures
        match r {
            None => var_at(s@, i as int).is_none(),
            Some(t) => t.start == i && var_at(s@, i as int) == Some(
                (t.name_start as int, t.name_end as int, t.end as int),
            ),
        },
{
    let open: Vec<char> = vec!['@', '{', 'v', 'a', 'r', '('];
    assert(open@ =~= var_open());
    if !lit_at_exec(s, i, &open) || !(i + 6 < s.len() && is_quote_exec(s[i + 6])) {
        return None;
    }
    let ns: usize = i + 7;
    let ne = name_end_exec(s, ns);
    let close: Vec<char> = vec![')', '}'];
    assert(close@ =~= var_close());
    if ne == ns || ne >= s.len() || !lit_at_exec(s, ne + 1, &close) {
        return None;
    }
    Some(TagSpan { start: i, name_start: ns, name_end: ne, end: ne + 3 })
}

pub fn match_token_at(s: &Vec<char>, i: usize, k: TokenKind) -> (r: Option<TagSpan>)
    requires
        i <= s.len(),
    ensures
        match r {
            None => token_at(s@, i as int, k).is_none(),
            Some(t) => t.start == i && token_at(s@, i as int, k) == Some(
                (t.name_start as int, t.name_end as int, t.end as int),
            ),
        },
{
    match k {
        TokenKind::Component => match_tag_at(s, i),
        TokenKind::Variable => match_var_at(s, i),
    }
}

/// The first reference that starts at or after `from`.
pub fn find_token(s: &Vec<char>, from: usize, k: TokenKind) -> (r: Option<TagSpan>)
    requires
        from <= s.len(),
    ensures
        match r {
            None => next_token(s@, from as int, k).is_none(),
            Some(t) => next_token(s@, from as int, k) == Some(t.start as int) && token_at(
                s@,
                t.start as int,
                k,
            ) == Some((t.name_start as int, t.name_end as int, t.end as int)),
        },
{
    let mut i: usize = from;
    while i < s.len()
        invariant
            from <= i <= s.len(),
            next_token(s@, from as int, k) == next_token(s@, i as int, k),
        decreases s.len() - i,
    {
        let m = match_token_at(s, i, k);
        if m.is_some() {
            return m;
        }
        i = i + 1;
    }
    None
}

/// Every reference of kind `k` in `s`, left to right.
pub fn scan_tokens(s: &Vec<char>, k: TokenKind) -> (r: Vec<TagSpan>)
    ensures
        span_seq(r@) == tokens_from(s@, 0, k),
{
    let mut r: Vec<TagSpan> = Vec::new();
    let mut pos: usize = 0;
    loop
        invariant
            pos <= s.len(),
            span_seq(r@) + tokens_from(s@, pos as int, k) == tokens_from(s@, 0, k),
        decreases s.len() - pos,
    {
        match find_token(s, pos, k) {
            None => {
                assert(tokens_from(s@, pos as int, k) =~= Seq::empty());
                assert(span_seq(r@) =~= tokens_from(s@, 0, k));
                return r;
            },
            Some(t) => {
                proof {
                    lemma_next_token(s@, pos as int, k);
                    lemma_token_bounds(s@, t.start as int, k);
                    assert(tokens_from(s@, pos as int, k) == seq![t.view()] + tokens_from(s@, t.end as int, k));
                    assert(span_seq(r@.push(t)) =~= span_seq(r@) + seq![t.view()]);
                }
                r.push(t);
                pos = t.end;
            },
        }
    }
}

} // verus!
