//! Character-sequence helpers shared by the scanner, the resolver and the
//! renderer. Text is held as `Vec<char>` so that contracts can speak of it as
//! a `Seq<char>`.
use vstd::prelude::*;

verus! {

/// Relies on `str::chars` collected into a `Vec`: the characters of `s`, in order.
#[verifier::external_body]
pub(crate) fn chars_of(s: &str) -> (r: Vec<char>)
    ensures
        r@ == s@,
{
    s.chars().collect()
}

/// Relies on collecting `char`s into a `String`: the string of exactly these characters.
#[verifier::external_body]
pub(crate) fn string_of(v: &Vec<char>) -> (r: String)
    ensures
        r@ == v@,
{
    v.iter().collect()
}

/// ASCII case folding of one character; other characters are unchanged.
pub open spec fn fold_char(c: char) -> char {
    if 'A' <= c && c <= 'Z' {
        ((c as u32) + 32) as char
    } else {
        c
    }
}

/// Two texts are equal up to ASCII case.
pub open spec fn eq_ignore_case(a: Seq<char>, b: Seq<char>) -> bool {
    a.len() == b.len() && forall|i: int| 0 <= i < a.len() ==> fold_char(#[trigger] a[i]) == fold_char(b[i])
}

pub fn fold_char_exec(c: char) -> (r: char)
    ensures
        r == fold_char(c),
{
    if 'A' <= c && c <= 'Z' {
        let u: u32 = (c as u32) + 32;
        proof {
            assert(0x61 <= u <= 0x7a);
        }
        char_from_ascii(u)
    } else {
        c
    }
}

fn char_from_ascii(u: u32) -> (r: char)
    requires
        u < 128,
    ensures
        r == u as char,
{
    let b: u8 = u as u8;
    b as char
}

pub fn same_ignore_case(a: &Vec<char>, b: &Vec<char>) -> (r: bool)
    ensures
        r == eq_ignore_case(a@, b@),
{
    if a.len() != b.len() {
        return false;
    }
    let mut i: usize = 0;
    while i < a.len()
        invariant
            a@.len() == b@.len(),
            i <= a.len(),
            forall|j: int| 0 <= j < i ==> fold_char(#[trigger] a@[j]) == fold_char(b@[j]),
        decreases a.len() - i,
    {
        if fold_char_exec(a[i]) != fold_char_exec(b[i]) {
            return false;
        }
        i = i + 1;
    }
    true
}

pub fn same_text(a: &Vec<char>, b: &Vec<char>) -> (r: bool)
    ensures
        r == (a@ == b@),
{
    if a.len() != b.len() {
        return false;
    }
    let mut i: usize = 0;
    while i < a.len()
        invariant
            a@.len() == b@.len(),
            i <= a.len(),
            forall|j: int| 0 <= j < i ==> a@[j] == b@[j],
        decreases a.len() - i,
    {
        if a[i] != b[i] {
            return false;
        }
        i = i + 1;
    }
    assert(a@ =~= b@);
    true
}

/// Appends `s[from..to]` to `out`.
pub fn push_range(out: &mut Vec<char>, s: &Vec<char>, from: usize, to: usize)
    requires
        from <= to <= s.len(),
    ensures
        final(out)@ == old(out)@ + s@.subrange(from as int, to as int),
{
    let mut i: usize = from;
    while i < to
        invariant
            from <= i <= to <= s.len(),
            out@ == old(out)@ + s@.subrange(from as int, i as int),
        decreases to - i,
    {
        out.push(s[i]);
        assert(s@.subrange(from as int, i + 1) =~= s@.subrange(from as int, i as int).push(s@[i as int]));
        i = i + 1;
    }
}

/// Appends all of `s` to `out`.
pub fn push_all(out: &mut Vec<char>, s: &Vec<char>)
    ensures
        final(out)@ == old(out)@ + s@,
{
    push_range(out, s, 0, s.len());
    assert(s@.subrange(0, s@.len() as int) =~= s@);
}

pub fn copy_text(s: &Vec<char>) -> (r: Vec<char>)
    ensures
        r@ == s@,
{
    let mut r: Vec<char> = Vec::new();
    push_all(&mut r, s);
    assert(r@ =~= s@);
    r
}

/// The first position at or after `i` where `lit` occurs in `s`.
pub open spec fn first_occ(s: Seq<char>, lit: Seq<char>, i: int) -> Option<int>
    decreases s.len() + 1 - i,
{
    if i < 0 || i > s.len() || i + lit.len() > s.len() {
        None
    } else if crate::tag::lit_at(s, i, lit) {
        Some(i)
    } else {
        first_occ(s, lit, i + 1)
    }
}

/// The last position before `n` where `lit` occurs in `s`.
pub open spec fn last_occ(s: Seq<char>, lit: Seq<char>, n: int) -> Option<int>
    decreases n,
{
    if n <= 0 {
        None
    } else if crate::tag::lit_at(s, n - 1, lit) {
        Some(n - 1)
    } else {
        last_occ(s, lit, n - 1)
    }
}

proof fn lemma_first_occ(s: Seq<char>, lit: Seq<char>, i: int)
    requires
        0 <= i,
    ensures
        first_occ(s, lit, i) matches Some(j) ==> i <= j && j + lit.len() <= s.len(),
    decreases s.len() + 1 - i,
{
    if i <= s.len() && i + lit.len() <= s.len() && !crate::tag::lit_at(s, i, lit) {
        lemma_first_occ(s, lit, i + 1);
    }
}

proof fn lemma_last_occ(s: Seq<char>, lit: Seq<char>, n: int)
    ensures
        last_occ(s, lit, n) matches Some(j) ==> 0 <= j < n && j + lit.len() <= s.len(),
    decreases n,
{
    if n > 0 && !crate::tag::lit_at(s, n - 1, lit) {
        lemma_last_occ(s, lit, n - 1);
    }
}

/// Where `lit` first occurs in `s`.
pub fn find_first(s: &Vec<char>, lit: &Vec<char>) -> (r: Option<usize>)
    ensures
        opt_pos(r) == first_occ(s@, lit@, 0),
        r matches Some(j) ==> j + lit.len() <= s.len(),
{
    proof {
        lemma_first_occ(s@, lit@, 0);
    }
    if lit.len() > s.len() {
        return None;
    }
    let last: usize = s.len() - lit.len();
    let mut i: usize = 0;
    loop
        invariant
            last + lit.len() == s.len(),
            i <= last,
            first_occ(s@, lit@, 0) == first_occ(s@, lit@, i as int),
        decreases last - i,
    {
        if crate::tag::lit_at_exec(s, i, lit) {
            return Some(i);
        }
        if i == last {
            assert(first_occ(s@, lit@, i as int + 1) == None::<int>);
            return None;
        }
        i = i + 1;
    }
}

/// Where `lit` last occurs in `s`.
pub fn find_last(s: &Vec<char>, lit: &Vec<char>) -> (r: Option<usize>)
    ensures
        opt_pos(r) == last_occ(s@, lit@, s.len() as int + 1),
        r matches Some(j) ==> j + lit.len() <= s.len(),
{
    proof {
        lemma_last_occ(s@, lit@, s.len() as int + 1);
    }
    let mut n: usize = s.len();
    loop
        invariant
            n <= s.len(),
            last_occ(s@, lit@, s.len() as int + 1) == last_occ(s@, lit@, n as int + 1),
        decreases n,
    {
        if crate::tag::lit_at_exec(s, n, lit) {
            return Some(n);
        }
        if n == 0 {
            assert(last_occ(s@, lit@, 0) == None::<int>);
            return None;
        }
        n = n - 1;
    }
}

pub open spec fn opt_pos(r: Option<usize>) -> Option<int> {
    match r {
        Some(i) => Some(i as int),
        None => None,
    }
}

} // verus!

verus! {

/// A `String` holding the characters of `s`.
pub fn to_string(s: &str) -> (r: String)
    ensures
        r@ == s@,
{
    string_of(&chars_of(s))
}

} // verus!
