//! Site variables and their substitution. A reference `@{var("NAME")}` (or
//! with single quotes) is replaced by the variable's value, looked up in the
//! page's variables, then the environment's, then the site's; an unknown
//! name is left as `@{var("NAME")}`.
use vstd::prelude::*;
use crate::render::{assemble, assemble_exec, texts};
use crate::tag::{scan_tokens, span_seq, tokens_ordered_lemma, var_refs, TokenKind};
use crate::text::{chars_of, copy_text, push_all, same_text, string_of};

verus! {

/// A layer of variables: each name with its value as text.
pub type Layer = Seq<(Seq<char>, Seq<char>)>;

pub open spec fn layer_view(v: Seq<(String, String)>) -> Layer {
    v.map_values(|e: (String, String)| (e.0@, e.1@))
}

/// The value of the first entry of a layer, from index `k` on, named `key`.
pub open spec fn layer_get(l: Layer, key: Seq<char>, k: int) -> Option<Seq<char>>
    decreases l.len() - k,
{
    if k < 0 || k >= l.len() {
        None
    } else if l[k].0 == key {
        Some(l[k].1)
    } else {
        layer_get(l, key, k + 1)
    }
}

pub open spec fn opt_layer_get(l: Option<Layer>, key: Seq<char>) -> Option<Seq<char>> {
    match l {
        Some(v) => layer_get(v, key, 0),
        None => None,
    }
}

/// A name's value: the page's, else the environment's, else the site's.
pub open spec fn lookup(page: Option<Layer>, env: Option<Layer>, site: Layer, key: Seq<char>) -> Option<Seq<char>> {
    match opt_layer_get(page, key) {
        Some(v) => Some(v),
        None => match opt_layer_get(env, key) {
            Some(v) => Some(v),
            None => layer_get(site, key, 0),
        },
    }
}

/// What stands for an unknown name.
pub open spec fn unresolved(name: Seq<char>) -> Seq<char> {
    "@{var(\""@ + name + "\")}"@
}

/// `s` with every variable reference replaced as `get` answers.
pub open spec fn substituted(s: Seq<char>, get: spec_fn(Seq<char>) -> Option<Seq<char>>) -> Seq<char> {
    let ts = var_refs(s);
    assemble(
        s,
        ts,
        Seq::new(
            ts.len(),
            |k: int|
                match get(s.subrange(ts[k].1, ts[k].2)) {
                    Some(v) => v,
                    None => unresolved(s.subrange(ts[k].1, ts[k].2)),
                },
        ),
        0,
        0,
    )
}

fn layer_get_exec(l: &Vec<(String, String)>, key: &Vec<char>) -> (r: Option<Vec<char>>)
    ensures
        match r {
            Some(v) => layer_get(layer_view(l@), key@, 0) == Some(v@),
            None => layer_get(layer_view(l@), key@, 0).is_none(),
        },
{
    let ghost lv = layer_view(l@);
    let mut k: usize = 0;
    while k < l.len()
        invariant
            k <= l.len(),
            lv == layer_view(l@),
            layer_get(lv, key@, 0) == layer_get(lv, key@, k as int),
        decreases l.len() - k,
    {
        let name = chars_of(l[k].0.as_str());
        if same_text(&name, key) {
            return Some(chars_of(l[k].1.as_str()));
        }
        k = k + 1;
    }
    None
}

fn opt_layer_get_exec(l: &Option<Vec<(String, String)>>, key: &Vec<char>) -> (r: Option<Vec<char>>)
    ensures
        match r {
            Some(v) => opt_layer_get(opt_layer_view(*l), key@) == Some(v@),
            None => opt_layer_get(opt_layer_view(*l), key@).is_none(),
        },
{
    match l {
        Some(v) => layer_get_exec(v, key),
        None => None,
    }
}

pub open spec fn opt_layer_view(l: Option<Vec<(String, String)>>) -> Option<Layer> {
    match l {
        Some(v) => Some(layer_view(v@)),
        None => None,
    }
}

/// The variables of a site, of its environment and of the page at hand.
#[derive(Clone, Debug)]
pub struct Variables {
    vars: Vec<(String, String)>,
    env_vars: Option<Vec<(String, String)>>,
    page_vars: Option<Vec<(String, String)>>,
}

impl Variables {
    pub closed spec fn site(&self) -> Layer {
        layer_view(self.vars@)
    }

    pub closed spec fn env(&self) -> Option<Layer> {
        opt_layer_view(self.env_vars)
    }

    pub closed spec fn page(&self) -> Option<Layer> {
        opt_layer_view(self.page_vars)
    }

    /// What a name stands for.
    pub open spec fn value_of(&self, key: Seq<char>) -> Option<Seq<char>> {
        lookup(self.page(), self.env(), self.site(), key)
    }

    /// `s` with this set's values substituted.
    pub open spec fn substitution(&self, s: Seq<char>) -> Seq<char> {
        substituted(s, |k: Seq<char>| self.value_of(k))
    }

    /// No variables at all.
    pub fn new() -> (r: Self)
        ensures
            r.site().len() == 0,
            r.env().is_none(),
            r.page().is_none(),
    {
        Variables { vars: Vec::new(), env_vars: None, page_vars: None }
    }

    /// The site's variables, and the environment's if there are any.
    pub fn from_layers(vars: Vec<(String, String)>, env_vars: Option<Vec<(String, String)>>) -> (r: Self)
        ensures
            r.site() == layer_view(vars@),
            r.env() == opt_layer_view(env_vars),
            r.page().is_none(),
    {
        Variables { vars, env_vars, page_vars: None }
    }

    /// Sets the variables of the page at hand.
    pub fn set_page_vars(&mut self, vars: Vec<(String, String)>)
        ensures
            final(self).page() == Some(layer_view(vars@)),
            final(self).env() == old(self).env(),
            final(self).site() == old(self).site(),
    {
        self.page_vars = Some(vars);
    }

    /// The value of a variable.
    pub fn get(&self, key: &str) -> (r: Option<String>)
        ensures
            match r {
                Some(v) => self.value_of(key@) == Some(v@),
                None => self.value_of(key@).is_none(),
            },
    {
        let k = chars_of(key);
        match self.get_chars(&k) {
            Some(v) => Some(string_of(&v)),
            None => None,
        }
    }

    fn get_chars(&self, k: &Vec<char>) -> (r: Option<Vec<char>>)
        ensures
            match r {
                Some(v) => self.value_of(k@) == Some(v@),
                None => self.value_of(k@).is_none(),
            },
    {
        match opt_layer_get_exec(&self.page_vars, k) {
            Some(v) => Some(v),
            None => match opt_layer_get_exec(&self.env_vars, k) {
                Some(v) => Some(v),
                None => layer_get_exec(&self.vars, k),
            },
        }
    }

    /// Replaces every variable reference in `content`.
    pub fn substitute(&self, content: &str) -> (r: String)
        ensures
            r@ == self.substitution(content@),
    {
        let s = chars_of(content);
        let spans = scan_tokens(&s, TokenKind::Variable);
        let ghost ts = var_refs(s@);
        proof {
            tokens_ordered_lemma(s@, TokenKind::Variable);
        }
        let ghost ps = Seq::new(
            ts.len(),
            |k: int|
                match self.value_of(s@.subrange(ts[k].1, ts[k].2)) {
                    Some(v) => v,
                    None => unresolved(s@.subrange(ts[k].1, ts[k].2)),
                },
        );
        let mut pieces: Vec<Vec<char>> = Vec::new();
        let mut k: usize = 0;
        while k < spans.len()
            invariant
                span_seq(spans@) == ts,
                ts == var_refs(s@),
                ps == Seq::new(
                    ts.len(),
                    |k: int|
                        match self.value_of(s@.subrange(ts[k].1, ts[k].2)) {
                            Some(v) => v,
                            None => unresolved(s@.subrange(ts[k].1, ts[k].2)),
                        },
                ),
                crate::tag::tags_ordered(s@, ts),
                k <= spans.len(),
                pieces.len() == k,
                forall|j: int| 0 <= j < k ==> (#[trigger] pieces@[j])@ == ps[j],
            decreases spans.len() - k,
        {
            let t = spans[k];
            assert(ts[k as int] == t.view());
            let name = crate::resolver::slice_of(&s, t.name_start, t.name_end);
            let p = match self.get_chars(&name) {
                Some(v) => v,
                None => {
                    let mut u = chars_of("@{var(\"");
                    push_all(&mut u, &name);
                    let tail = chars_of("\")}");
                    push_all(&mut u, &tail);
                    u
                },
            };
            pieces.push(p);
            k = k + 1;
        }
        assert(texts(pieces@) =~= ps);
        let out = assemble_exec(&s, &spans, &pieces);
        proof {
            let get = |k: Seq<char>| self.value_of(k);
            let qs = Seq::new(
                ts.len(),
                |k: int|
                    match get(s@.subrange(ts[k].1, ts[k].2)) {
                        Some(v) => v,
                        None => unresolved(s@.subrange(ts[k].1, ts[k].2)),
                    },
            );
            assert(qs =~= ps);
        }
        string_of(&out)
    }
}

/// Expands the variable macros of a page.
#[derive(Clone, Debug)]
pub struct MacroProcessor {
    variables: Option<Variables>,
}

impl MacroProcessor {
    pub closed spec fn vars(&self) -> Option<Variables> {
        self.variables
    }

    /// `s` as this processor leaves it.
    pub open spec fn processed(&self, s: Seq<char>) -> Seq<char> {
        match self.vars() {
            Some(v) => v.substitution(s),
            None => s,
        }
    }

    pub fn new() -> (r: Self)
        ensures
            r.vars().is_none(),
    {
        MacroProcessor { variables: None }
    }

    pub fn with_variables(self, vars: Variables) -> (r: Self)
        ensures
            r.vars() == Some(vars),
    {
        MacroProcessor { variables: Some(vars) }
    }

    pub fn process(&self, content: &str) -> (r: String)
        ensures
            r@ == self.processed(content@),
    {
        match &self.variables {
            Some(v) => v.substitute(content),
            None => crate::text::to_string(content),
        }
    }
}

} // verus!
