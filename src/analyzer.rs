//! Page analysis: security findings (mixed content, insecure links, inline
//! scripts, external resources) and a performance report with a score. The
//! page is parsed and queried with scraper; the rules are this module's.
use vstd::prelude::*;
use crate::html::{decimal, decimal_exec, digit};
use crate::seo_types::strings;
use crate::tag::lit_at;
use crate::text::{chars_of, push_all, same_text, string_of};

verus! {

/// What scraper finds in the document `html`: the values of attribute
/// `attr` on the elements that `selector` selects, in document order.
pub uninterp spec fn attr_values_of(html: Seq<char>, selector: Seq<char>, attr: Seq<char>) -> Seq<Seq<char>>;

/// How many elements `selector` selects in the document `html`.
pub uninterp spec fn match_count_of(html: Seq<char>, selector: Seq<char>) -> nat;

/// The inner HTML of each element that `selector` selects in `html`.
pub uninterp spec fn inner_htmls_of(html: Seq<char>, selector: Seq<char>) -> Seq<Seq<char>>;

/// The scheme of a URL, if it parses as one.
pub uninterp spec fn url_scheme_of(u: Seq<char>) -> Option<Seq<char>>;

/// Relies on scraper's `Html::parse_document`, `Selector::parse`,
/// `Html::select` and `ElementRef::attr`: the values of `attr` on the
/// selected elements that have it, in document order; none when the
/// selector does not parse.
#[verifier::external_body]
fn attr_values(html: &str, selector: &str, attr: &str) -> (r: Vec<String>)
    ensures
        strings(r@) == attr_values_of(html@, selector@, attr@),
{
    let doc = scraper::Html::parse_document(html);
    match scraper::Selector::parse(selector) {
        Ok(sel) => doc.select(&sel).filter_map(|e| e.value().attr(attr)).map(|v| v.to_string()).collect(),
        Err(_) => Vec::new(),
    }
}

/// Relies on scraper's `Html::parse_document`, `Selector::parse` and
/// `Html::select`: the number of selected elements; none when the selector
/// does not parse.
#[verifier::external_body]
fn match_count(html: &str, selector: &str) -> (r: usize)
    ensures
        r as nat == match_count_of(html@, selector@),
{
    let doc = scraper::Html::parse_document(html);
    match scraper::Selector::parse(selector) {
        Ok(sel) => doc.select(&sel).count(),
        Err(_) => 0,
    }
}

/// Relies on scraper's `Html::parse_document`, `Selector::parse`,
/// `Html::select` and `ElementRef::inner_html`: the inner HTML of each
/// selected element, in document order. With scraper's `deterministic`
/// feature, attributes are kept in source order, so the text depends on the
/// document alone.
#[verifier::external_body]
fn inner_htmls(html: &str, selector: &str) -> (r: Vec<String>)
    ensures
        strings(r@) == inner_htmls_of(html@, selector@),
{
    let doc = scraper::Html::parse_document(html);
    match scraper::Selector::parse(selector) {
        Ok(sel) => doc.select(&sel).map(|e| e.inner_html()).collect(),
        Err(_) => Vec::new(),
    }
}

/// Relies on `url::Url::parse` and `Url::scheme`: the scheme of a URL that
/// parses.
#[verifier::external_body]
fn url_scheme(u: &str) -> (r: Option<String>)
    ensures
        match r {
            Some(x) => url_scheme_of(u@) == Some(x@),
            None => url_scheme_of(u@).is_none(),
        },
{
    url::Url::parse(u).ok().map(|p| p.scheme().to_string())
}

/// Unicode white space, as `char::is_whitespace` knows it.
pub open spec fn is_white(c: char) -> bool {
    ('\t' <= c && c <= '\r') || c == ' ' || c == '\u{85}' || c == '\u{A0}' || c == '\u{1680}' || ('\u{2000}' <= c
        && c <= '\u{200A}') || c == '\u{2028}' || c == '\u{2029}' || c == '\u{202F}' || c == '\u{205F}' || c
        == '\u{3000}'
}

/// Nothing but white space.
pub open spec fn blank(s: Seq<char>) -> bool {
    forall|i: int| 0 <= i < s.len() ==> is_white(#[trigger] s[i])
}

fn blank_exec(s: &str) -> (r: bool)
    ensures
        r == blank(s@),
{
    let v = chars_of(s);
    let mut i: usize = 0;
    while i < v.len()
        invariant
            i <= v.len(),
            v@ == s@,
            forall|j: int| 0 <= j < i ==> is_white(#[trigger] v@[j]),
        decreases v.len() - i,
    {
        let c = v[i];
        let w = ('\t' <= c && c <= '\r') || c == ' ' || c == '\u{85}' || c == '\u{A0}' || c == '\u{1680}' || ('\u{2000}'
            <= c && c <= '\u{200A}') || c == '\u{2028}' || c == '\u{2029}' || c == '\u{202F}' || c == '\u{205F}'
            || c == '\u{3000}';
        if !w {
            return false;
        }
        i = i + 1;
    }
    true
}

/// The URLs of a list that use plain HTTP, in order.
pub open spec fn http_only(v: Seq<Seq<char>>) -> Seq<Seq<char>>
    decreases v.len(),
{
    if v.len() == 0 {
        Seq::empty()
    } else if is_plain_http(v.last()) {
        http_only(v.drop_last()).push(v.last())
    } else {
        http_only(v.drop_last())
    }
}

/// The external resources of a list of URLs: those starting with `http`,
/// each once, in order of first appearance.
pub open spec fn externals(v: Seq<Seq<char>>) -> Seq<Seq<char>>
    decreases v.len(),
{
    if v.len() == 0 {
        Seq::empty()
    } else {
        let e = externals(v.drop_last());
        if lit_at(v.last(), 0, "http"@) && !e.contains(v.last()) {
            e.push(v.last())
        } else {
            e
        }
    }
}

/// The external resources whose URL has the `http` scheme, in order.
pub open spec fn insecure(v: Seq<Seq<char>>) -> Seq<Seq<char>>
    decreases v.len(),
{
    if v.len() == 0 {
        Seq::empty()
    } else {
        let i = insecure(v.drop_last());
        if lit_at(v.last(), 0, "http"@) && !externals(v.drop_last()).contains(v.last()) && url_scheme_of(v.last())
            == Some("http"@) {
            i.push(v.last())
        } else {
            i
        }
    }
}

/// Resources a page served over HTTPS loads over plain HTTP: images,
/// scripts, stylesheets and frames, in that order.
pub open spec fn mixed_spec(html: Seq<char>) -> Seq<Seq<char>> {
    http_only(attr_values_of(html, "img[src]"@, "src"@)) + http_only(attr_values_of(html, "script[src]"@, "src"@))
        + http_only(attr_values_of(html, "link[href]"@, "href"@)) + http_only(
        attr_values_of(html, "iframe[src]"@, "src"@),
    )
}

/// The resource URLs of a page: scripts, stylesheets, then images.
pub open spec fn resource_urls(html: Seq<char>) -> Seq<Seq<char>> {
    attr_values_of(html, "script[src]"@, "src"@) + attr_values_of(html, "link[href]"@, "href"@) + attr_values_of(
        html,
        "img[src]"@,
        "src"@,
    )
}

/// A page has an inline script with content.
pub open spec fn has_inline_script(html: Seq<char>) -> bool {
    exists|i: int|
        0 <= i < inner_htmls_of(html, "script:not([src])"@).len() && !blank(
            #[trigger] inner_htmls_of(html, "script:not([src])"@)[i],
        )
}

pub struct SecurityReport {
    pub mixed_content: Vec<String>,
    pub insecure_links: Vec<String>,
    pub inline_scripts: Vec<String>,
    pub external_resources: Vec<String>,
}

pub struct PerformanceReport {
    pub details: String,
    pub recommendations: Vec<String>,
}

/// Points lost for `count` elements when `free` of them cost nothing and
/// each further one costs `per`, up to `cap`.
pub open spec fn penalty(count: int, free: int, per: int, cap: int) -> int {
    if count > free {
        if (count - free) * per < cap {
            (count - free) * per
        } else {
            cap
        }
    } else {
        0
    }
}

/// The performance score of a page: 100, less up to 30 for scripts beyond
/// ten, up to 20 for stylesheets beyond three, and up to 15 for images
/// beyond three that are not loaded lazily.
pub open spec fn score_of(scripts: int, stylesheets: int, eager_images: int) -> int {
    100 - penalty(scripts, 10, 2, 30) - penalty(stylesheets, 3, 5, 20) - penalty(eager_images, 3, 3, 15)
}

fn penalty_exec(count: usize, free: usize, per: usize, cap: usize) -> (r: u32)
    requires
        cap <= 30,
        1 <= per <= 5,
    ensures
        r as int == penalty(count as int, free as int, per as int, cap as int),
{
    if count > free {
        let over = count - free;
        if over < cap {
            proof {
                assert(over * per <= 30 * 5) by (nonlinear_arith)
                    requires
                        over < cap,
                        cap <= 30,
                        per <= 5,
                ;
            }
            if over * per < cap {
                (over * per) as u32
            } else {
                cap as u32
            }
        } else {
            proof {
                assert(over * per >= cap) by (nonlinear_arith)
                    requires
                        over >= cap,
                        per >= 1,
                ;
            }
            cap as u32
        }
    } else {
        0
    }
}

/// A URL that a page served over HTTPS must not load.
pub open spec fn is_plain_http(url: Seq<char>) -> bool {
    crate::tag::lit_at(url, 0, "http://"@)
}

/// A page size in hundredths of a kilobyte (1024 bytes), rounded to the
/// nearest, ties to even.
pub open spec fn kb_hundredths(size: nat) -> nat {
    let q = (size * 25) / 256;
    let r = (size * 25) % 256;
    if r > 128 || (r == 128 && q % 2 == 1) {
        q + 1
    } else {
        q
    }
}

/// A size in kilobytes with two decimals.
pub open spec fn kb_text(size: nat) -> Seq<char> {
    let h = kb_hundredths(size);
    decimal(h / 100) + "."@ + seq![digit((h % 100) / 10), digit(h % 10)]
}

/// The counts that the performance report is made of.
pub open spec fn images(html: Seq<char>) -> nat {
    match_count_of(html, "img"@)
}

/// Images without both a width and a height.
pub open spec fn unsized_images(html: Seq<char>) -> nat {
    let sized = match_count_of(html, "img[width][height]"@);
    if sized <= images(html) {
        (images(html) - sized) as nat
    } else {
        0
    }
}

pub open spec fn blocking_scripts(html: Seq<char>) -> nat {
    match_count_of(html, "script:not([async]):not([defer])"@)
}

pub open spec fn stylesheets(html: Seq<char>) -> nat {
    match_count_of(html, "link[rel='stylesheet']"@)
}

pub open spec fn page_score(html: Seq<char>) -> int {
    score_of(
        match_count_of(html, "script"@) as int,
        stylesheets(html) as int,
        match_count_of(html, "img:not([loading='lazy'])"@) as int,
    )
}

/// The share of images with both a width and a height, in percent.
pub open spec fn sized_percent(html: Seq<char>) -> nat {
    if images(html) > 0 {
        ((images(html) - unsized_images(html)) * 100) as nat / images(html)
    } else {
        100
    }
}

/// The details of a performance report for a page of `size` bytes.
pub open spec fn details_spec(html: Seq<char>, size: nat) -> Seq<char> {
    "Page size: "@ + kb_text(size) + " KB\n"@ + "Images: "@ + decimal(images(html)) + " ("@ + decimal(
        sized_percent(html),
    ) + "% optimized)\n"@ + (if blocking_scripts(html) > 0 {
        "Blocking scripts: "@ + decimal(blocking_scripts(html)) + "\n"@
    } else {
        Seq::<char>::empty()
    }) + "CSS files: "@ + decimal(stylesheets(html)) + "\n"@ + "Performance score: "@ + decimal(
        page_score(html) as nat,
    ) + "/100\n"@
}

pub open spec fn when_true(c: bool, s: Seq<char>) -> Seq<Seq<char>> {
    if c {
        seq![s]
    } else {
        Seq::empty()
    }
}

/// The recommendations of a performance report for a page of `size` bytes.
pub open spec fn recommendations_spec(html: Seq<char>, size: nat) -> Seq<Seq<char>> {
    when_true(size > 500_000, "Page size exceeds 500KB. Consider optimizing images and removing unused resources."@)
        + when_true(
        unsized_images(html) > 0,
        "Add width and height attributes to "@ + decimal(unsized_images(html))
            + " images to prevent layout shifts."@,
    ) + when_true(blocking_scripts(html) > 0, "Add async or defer to non-critical scripts."@) + when_true(
        stylesheets(html) > 3,
        "Consider combining CSS files to reduce HTTP requests."@,
    ) + when_true(
        page_score(html) < 70,
        "Overall performance needs improvement. Consider implementing the above recommendations."@,
    )
}

fn kb_text_exec(size: usize) -> (r: Vec<char>)
    ensures
        r@ == kb_text(size as nat),
{
    let n: u128 = (size as u128) * 25;
    let q: u128 = n / 256;
    let rem: u128 = n % 256;
    let h: u128 = if rem > 128 || (rem == 128 && q % 2 == 1) {
        q + 1
    } else {
        q
    };
    assert(h == kb_hundredths(size as nat));
    assert(h <= u64::MAX) by (nonlinear_arith)
        requires
            n == (size as u128) * 25,
            size <= u64::MAX,
            q == n / 256,
            h <= q + 1,
    ;
    let mut v = decimal_exec((h / 100) as u64);
    v.push('.');
    let tens: u8 = ((h % 100) / 10) as u8;
    let ones: u8 = (h % 10) as u8;
    v.push((tens + 48) as char);
    v.push((ones + 48) as char);
    assert(v@ =~= kb_text(size as nat)) by {
        reveal_strlit(".");
    }
    v
}

fn push_http_only(out: &mut Vec<String>, vals: &Vec<String>)
    ensures
        strings(final(out)@) == strings(old(out)@) + http_only(strings(vals@)),
{
    let ghost start = strings(out@);
    let mut k: usize = 0;
    assert(strings(vals@).subrange(0, 0) =~= Seq::<Seq<char>>::empty());
    assert(strings(out@) =~= start + http_only(Seq::<Seq<char>>::empty()));
    while k < vals.len()
        invariant
            k <= vals.len(),
            strings(out@) == start + http_only(strings(vals@).subrange(0, k as int)),
        decreases vals.len() - k,
    {
        let ghost sub = strings(vals@).subrange(0, k + 1);
        assert(sub.drop_last() =~= strings(vals@).subrange(0, k as int));
        assert(sub.last() == vals@[k as int]@);
        let v = chars_of(vals[k].as_str());
        let http = chars_of("http://");
        let ghost before = strings(out@);
        if lit_at_exec(&v, 0, &http) {
            assert(is_plain_http(sub.last()));
            out.push(vals[k].clone());
            assert(strings(out@) =~= before.push(vals@[k as int]@));
            assert(strings(out@) =~= start + http_only(sub));
        } else {
            assert(!is_plain_http(sub.last()));
        }
        k = k + 1;
    }
    assert(strings(vals@).subrange(0, vals.len() as int) =~= strings(vals@));
}

fn contains_text(v: &Vec<String>, u: &String) -> (r: bool)
    ensures
        r == strings(v@).contains(u@),
{
    let b = chars_of(u.as_str());
    let mut i: usize = 0;
    while i < v.len()
        invariant
            i <= v.len(),
            b@ == u@,
            forall|j: int| 0 <= j < i ==> v@[j]@ != u@,
        decreases v.len() - i,
    {
        let a = chars_of(v[i].as_str());
        if same_text(&a, &b) {
            assert(strings(v@)[i as int] == u@);
            return true;
        }
        i = i + 1;
    }
    assert forall|j: int| 0 <= j < strings(v@).len() implies strings(v@)[j] != u@ by {
        assert(strings(v@)[j] == v@[j]@);
    }
    false
}

fn lit_at_exec(s: &Vec<char>, i: usize, lit: &Vec<char>) -> (r: bool)
    ensures
        r == lit_at(s@, i as int, lit@),
{
    crate::tag::lit_at_exec(s, i, lit)
}

pub struct Analyzer {
    base_url: Option<String>,
}

impl Analyzer {
    pub closed spec fn base(&self) -> Option<Seq<char>> {
        match self.base_url {
            Some(b) => Some(b@),
            None => None,
        }
    }

    pub fn new(base_url: Option<String>) -> (r: Self)
        ensures
            r.base() == match base_url {
                Some(b) => Some(b@),
                None => None::<Seq<char>>,
            },
    {
        Analyzer { base_url }
    }

    /// The site is served over HTTPS.
    pub open spec fn checks_https(&self) -> bool {
        match self.base() {
            Some(b) => crate::tag::lit_at(b, 0, "https"@),
            None => false,
        }
    }

    /// Mixed content matters only for a site served over HTTPS.
    pub fn checks_mixed_content(&self) -> (r: bool)
        ensures
            r == self.checks_https(),
    {
        match &self.base_url {
            Some(b) => {
                let v = chars_of(b.as_str());
                let https = chars_of("https");
                crate::tag::lit_at_exec(&v, 0, &https)
            },
            None => false,
        }
    }

    /// The security findings of a page: mixed content (only for a site
    /// served over HTTPS), the external resources with those on plain HTTP,
    /// and the page's path if it has an inline script with content.
    pub fn analyze_security(&self, html: &str, file_path: &str) -> (r: SecurityReport)
        ensures
            strings(r.mixed_content@) == if self.checks_https() {
                mixed_spec(html@)
            } else {
                Seq::<Seq<char>>::empty()
            },
            strings(r.external_resources@) == externals(resource_urls(html@)),
            strings(r.insecure_links@) == insecure(resource_urls(html@)),
            strings(r.inline_scripts@) == if has_inline_script(html@) {
                seq![file_path@]
            } else {
                Seq::<Seq<char>>::empty()
            },
    {
        let mut mixed: Vec<String> = Vec::new();
        if self.checks_mixed_content() {
            assert(strings(mixed@) =~= Seq::<Seq<char>>::empty());
            push_http_only(&mut mixed, &attr_values(html, "img[src]", "src"));
            push_http_only(&mut mixed, &attr_values(html, "script[src]", "src"));
            push_http_only(&mut mixed, &attr_values(html, "link[href]", "href"));
            push_http_only(&mut mixed, &attr_values(html, "iframe[src]", "src"));
            assert(strings(mixed@) =~= mixed_spec(html@));
        } else {
            assert(strings(mixed@) =~= Seq::<Seq<char>>::empty());
        }
        let mut inline: Vec<String> = Vec::new();
        let scripts = inner_htmls(html, "script:not([src])");
        let mut k: usize = 0;
        let mut found = false;
        while k < scripts.len()
            invariant
                k <= scripts.len(),
                strings(scripts@) == inner_htmls_of(html@, "script:not([src])"@),
                found ==> has_inline_script(html@),
                !found ==> forall|j: int| 0 <= j < k ==> blank(#[trigger] strings(scripts@)[j]),
            decreases scripts.len() - k,
        {
            if !found && !blank_exec(scripts[k].as_str()) {
                found = true;
                assert(!blank(strings(scripts@)[k as int]));
            }
            k = k + 1;
        }
        if found {
            inline.push(crate::text::to_string(file_path));
            assert(strings(inline@) =~= seq![file_path@]);
        } else {
            assert(strings(inline@) =~= Seq::<Seq<char>>::empty());
        }
        let mut urls = attr_values(html, "script[src]", "src");
        let mut links = attr_values(html, "link[href]", "href");
        let mut imgs = attr_values(html, "img[src]", "src");
        let ghost a = strings(urls@);
        let ghost b = strings(links@);
        let ghost c = strings(imgs@);
        urls.append(&mut links);
        urls.append(&mut imgs);
        assert(strings(urls@) =~= resource_urls(html@)) by {
            assert(strings(urls@) =~= a + b + c);
        }
        let ghost l = strings(urls@);
        let mut external: Vec<String> = Vec::new();
        let mut insecure_links: Vec<String> = Vec::new();
        let mut i: usize = 0;
        assert(l.subrange(0, 0) =~= Seq::<Seq<char>>::empty());
        assert(strings(external@) =~= Seq::<Seq<char>>::empty());
        assert(strings(insecure_links@) =~= Seq::<Seq<char>>::empty());
        while i < urls.len()
            invariant
                i <= urls.len(),
                l == strings(urls@),
                strings(external@) == externals(l.subrange(0, i as int)),
                strings(insecure_links@) == insecure(l.subrange(0, i as int)),
            decreases urls.len() - i,
        {
            let ghost sub = l.subrange(0, i + 1);
            assert(sub.drop_last() =~= l.subrange(0, i as int));
            assert(sub.last() == urls@[i as int]@);
            let u = chars_of(urls[i].as_str());
            let http = chars_of("http");
            if lit_at_exec(&u, 0, &http) && !contains_text(&external, &urls[i]) {
                let ghost e0 = strings(external@);
                let ghost i0 = strings(insecure_links@);
                external.push(urls[i].clone());
                assert(strings(external@) =~= e0.push(urls@[i as int]@));
                let scheme = url_scheme(urls[i].as_str());
                let is_http = match &scheme {
                    Some(x) => {
                        let xv = chars_of(x.as_str());
                        let h = chars_of("http");
                        same_text(&xv, &h)
                    },
                    None => false,
                };
                if is_http {
                    insecure_links.push(urls[i].clone());
                    assert(strings(insecure_links@) =~= i0.push(urls@[i as int]@));
                }
            }
            i = i + 1;
        }
        assert(l.subrange(0, urls.len() as int) =~= l);
        SecurityReport {
            mixed_content: mixed,
            insecure_links,
            inline_scripts: inline,
            external_resources: external,
        }
    }

    /// The performance report of a page: its size, image sizing, blocking
    /// scripts, stylesheets and score, with the recommendations they call for.
    pub fn analyze_performance(&self, content: &str, file_path: &str) -> (r: PerformanceReport)
        ensures
            r.details@ == details_spec(content@, content.len() as nat),
            strings(r.recommendations@) == recommendations_spec(content@, content.len() as nat),
    {
        let size = content.len();
        let imgs = match_count(content, "img");
        let sized = match_count(content, "img[width][height]");
        let unsized_count: usize = if sized <= imgs {
            imgs - sized
        } else {
            0
        };
        let blocking = match_count(content, "script:not([async]):not([defer])");
        let css = match_count(content, "link[rel='stylesheet']");
        let score = self.calculate_performance_score(
            match_count(content, "script"),
            css,
            match_count(content, "img:not([loading='lazy'])"),
        );
        let pct: u64 = if imgs > 0 {
            let num: u128 = ((imgs - unsized_count) as u128) * 100;
            let den: u128 = imgs as u128;
            let p: u128 = num / den;
            assert(p <= 100) by (nonlinear_arith)
                requires
                    num as int == (imgs as int - unsized_count as int) * 100,
                    den as int == imgs as int,
                    p as int == num as int / den as int,
                    unsized_count <= imgs,
                    imgs > 0,
            ;
            p as u64
        } else {
            100
        };
        assert(pct == sized_percent(content@));
        let mut d = chars_of("Page size: ");
        push_all(&mut d, &kb_text_exec(size));
        push_all(&mut d, &chars_of(" KB\n"));
        push_all(&mut d, &chars_of("Images: "));
        push_all(&mut d, &decimal_exec(imgs as u64));
        push_all(&mut d, &chars_of(" ("));
        push_all(&mut d, &decimal_exec(pct));
        push_all(&mut d, &chars_of("% optimized)\n"));
        let ghost before_blocking = d@;
        if blocking > 0 {
            push_all(&mut d, &chars_of("Blocking scripts: "));
            push_all(&mut d, &decimal_exec(blocking as u64));
            push_all(&mut d, &chars_of("\n"));
        }
        assert(d@ =~= before_blocking + (if blocking_scripts(content@) > 0 {
            "Blocking scripts: "@ + decimal(blocking_scripts(content@)) + "\n"@
        } else {
            Seq::<char>::empty()
        }));
        push_all(&mut d, &chars_of("CSS files: "));
        push_all(&mut d, &decimal_exec(css as u64));
        push_all(&mut d, &chars_of("\n"));
        push_all(&mut d, &chars_of("Performance score: "));
        push_all(&mut d, &decimal_exec(score as u64));
        push_all(&mut d, &chars_of("/100\n"));
        let mut recs: Vec<String> = Vec::new();
        let ghost r0 = strings(recs@);
        if size > 500_000 {
            recs.push(crate::text::to_string("Page size exceeds 500KB. Consider optimizing images and removing unused resources."));
        }
        let ghost r1 = strings(recs@);
        if unsized_count > 0 {
            let mut m = chars_of("Add width and height attributes to ");
            push_all(&mut m, &decimal_exec(unsized_count as u64));
            push_all(&mut m, &chars_of(" images to prevent layout shifts."));
            recs.push(string_of(&m));
        }
        let ghost r2 = strings(recs@);
        if blocking > 0 {
            recs.push(crate::text::to_string("Add async or defer to non-critical scripts."));
        }
        let ghost r3 = strings(recs@);
        if css > 3 {
            recs.push(crate::text::to_string("Consider combining CSS files to reduce HTTP requests."));
        }
        let ghost r4 = strings(recs@);
        if score < 70 {
            recs.push(crate::text::to_string("Overall performance needs improvement. Consider implementing the above recommendations."));
        }
        proof {
            let sz = content.len() as nat;
            assert(r1 =~= r0 + when_true(sz > 500_000, "Page size exceeds 500KB. Consider optimizing images and removing unused resources."@));
            assert(r2 =~= r1 + when_true(
                unsized_images(content@) > 0,
                "Add width and height attributes to "@ + decimal(unsized_images(content@)) + " images to prevent layout shifts."@,
            ));
            assert(r3 =~= r2 + when_true(blocking_scripts(content@) > 0, "Add async or defer to non-critical scripts."@));
            assert(r4 =~= r3 + when_true(stylesheets(content@) > 3, "Consider combining CSS files to reduce HTTP requests."@));
            assert(strings(recs@) =~= r4 + when_true(
                page_score(content@) < 70,
                "Overall performance needs improvement. Consider implementing the above recommendations."@,
            ));
            assert(r0 =~= Seq::<Seq<char>>::empty());
            assert(strings(recs@) =~= recommendations_spec(content@, sz));
            assert(d@ =~= details_spec(content@, sz));
        }
        PerformanceReport { details: string_of(&d), recommendations: recs }
    }

    /// The performance score for a page with these counts of scripts,
    /// stylesheets and eagerly loaded images.
    pub fn calculate_performance_score(&self, scripts: usize, stylesheets: usize, eager_images: usize) -> (r: u32)
        ensures
            r as int == score_of(scripts as int, stylesheets as int, eager_images as int),
            35 <= r <= 100,
    {
        let a = penalty_exec(scripts, 10, 2, 30);
        let b = penalty_exec(stylesheets, 3, 5, 20);
        let c = penalty_exec(eager_images, 3, 3, 15);
        100 - a - b - c
    }
}

} // verus!
