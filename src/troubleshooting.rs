//! Diagnostics of a site build: the lint rules for content files, and the
//! memory profile of a build.
use vstd::prelude::*;
use crate::text::{chars_of, find_first, first_occ, push_all, string_of};

verus! {

/// `lit` occurs somewhere in `s`.
pub open spec fn contains(s: Seq<char>, lit: Seq<char>) -> bool {
    first_occ(s, lit, 0).is_some()
}

/// The lint findings for a file with extension `ext` and text `content`,
/// each prefixed with the file's path: in a page, `javascript:` URLs and
/// plain `http:` links; in a stylesheet, `!important`; in a markdown post, a
/// missing top-level heading at the start.
pub open spec fn lint_spec(path: Seq<char>, ext: Seq<char>, content: Seq<char>) -> Seq<Seq<char>> {
    if ext == "html"@ {
        (if contains(content, "javascript:"@) {
            seq![path + ": Unsafe javascript: protocol usage"@]
        } else {
            Seq::empty()
        }) + (if contains(content, "http:"@) {
            seq![path + ": Mixed content (http:// links)"@]
        } else {
            Seq::empty()
        })
    } else if ext == "css"@ {
        if contains(content, "!important"@) {
            seq![path + ": Use of !important"@]
        } else {
            Seq::empty()
        }
    } else if ext == "md"@ {
        if !crate::tag::lit_at(content, 0, "# "@) {
            seq![path + ": Missing top-level heading"@]
        } else {
            Seq::empty()
        }
    } else {
        Seq::empty()
    }
}

fn finding(path: &Vec<char>, message: &str) -> (r: String)
    ensures
        r@ == path@ + message@,
{
    let mut v = crate::text::copy_text(path);
    let m = chars_of(message);
    push_all(&mut v, &m);
    string_of(&v)
}

fn has(content: &Vec<char>, lit: &str) -> (r: bool)
    ensures
        r == contains(content@, lit@),
{
    let l = chars_of(lit);
    find_first(content, &l).is_some()
}

/// The lint findings for one file.
pub fn lint_file(path: &str, ext: &str, content: &str) -> (r: Vec<String>)
    ensures
        r@.map_values(|f: String| f@) == lint_spec(path@, ext@, content@),
{
    let p = chars_of(path);
    let e = chars_of(ext);
    let c = chars_of(content);
    let mut r: Vec<String> = Vec::new();
    if crate::text::same_text(&e, &chars_of("html")) {
        if has(&c, "javascript:") {
            r.push(finding(&p, ": Unsafe javascript: protocol usage"));
        }
        if has(&c, "http:") {
            r.push(finding(&p, ": Mixed content (http:// links)"));
        }
    } else if crate::text::same_text(&e, &chars_of("css")) {
        if has(&c, "!important") {
            r.push(finding(&p, ": Use of !important"));
        }
    } else if crate::text::same_text(&e, &chars_of("md")) {
        let h = chars_of("# ");
        if !crate::tag::lit_at_exec(&c, 0, &h) {
            r.push(finding(&p, ": Missing top-level heading"));
        }
    }
    assert(r@.map_values(|f: String| f@) =~= lint_spec(path@, ext@, content@));
    r
}

pub struct Troubleshooter {
    cache_dir: String,
    output_dir: String,
}

/// Memory in use before and after a build, in bytes, and the change.
#[derive(Clone, Copy, Debug, PartialEq, Eq)]
pub struct MemoryProfile {
    pub start_bytes: u64,
    pub end_bytes: u64,
    pub delta_bytes: i128,
}

impl Troubleshooter {
    pub closed spec fn cache(&self) -> Seq<char> {
        self.cache_dir@
    }

    pub closed spec fn output(&self) -> Seq<char> {
        self.output_dir@
    }

    pub fn new(cache_dir: String, output_dir: String) -> (r: Self)
        ensures
            r.cache() == cache_dir@,
            r.output() == output_dir@,
    {
        Troubleshooter { cache_dir, output_dir }
    }

    pub fn cache_dir(&self) -> (r: &String)
        ensures
            r@ == self.cache(),
    {
        &self.cache_dir
    }

    pub fn output_dir(&self) -> (r: &String)
        ensures
            r@ == self.output(),
    {
        &self.output_dir
    }

    /// The profile of a build that used `start_bytes` before and
    /// `end_bytes` after; a failed build passes its error on.
    pub fn memory_profile(&self, start_bytes: u64, build: Result<(), String>, end_bytes: u64) -> (r: Result<
        MemoryProfile,
        String,
    >)
        ensures
            build.is_err() ==> r.is_err() && r->Err_0@ == build->Err_0@,
            build.is_ok() ==> r == Ok::<MemoryProfile, String>(
                MemoryProfile {
                    start_bytes,
                    end_bytes,
                    delta_bytes: (end_bytes as int - start_bytes as int) as i128,
                },
            ),
    {
        match build {
            Err(e) => Err(e),
            Ok(()) => {
                let delta: i128 = end_bytes as i128 - start_bytes as i128;
                Ok(MemoryProfile { start_bytes, end_bytes, delta_bytes: delta })
            },
        }
    }
}

} // verus!
