//! Minification of generated pages.
use vstd::prelude::*;

verus! {

/// Relies on `minify_html::minify`, with closing tags and the opening html
/// and head tags kept and inline CSS and JS minified. Nothing is stated of
/// the result: inline scripts go through minify-js, whose output order can
/// vary from one process to the next. Bytes that are not UTF-8 are replaced,
/// as `String::from_utf8_lossy` does.
#[verifier::external_body]
fn minified_html(content: &str) -> (r: String) {
    let mut cfg = minify_html::Cfg::spec_compliant();
    cfg.keep_closing_tags = true;
    cfg.keep_html_and_head_opening_tags = true;
    cfg.minify_css = true;
    cfg.minify_js = true;
    cfg.remove_processing_instructions = true;
    String::from_utf8_lossy(&minify_html::minify(content.as_bytes(), &cfg)).into_owned()
}

/// The minifier of generated pages and scripts.
pub struct Minifier {}

impl Default for Minifier {
    fn default() -> (r: Self)
        ensures
            r == (Minifier {  }),
    {
        Minifier {  }
    }
}

impl Minifier {
    pub fn new() -> (r: Self) {
        Minifier {  }
    }

    /// The minified page. What it holds is minify-html's to decide, and
    /// may differ between processes for pages with inline scripts.
    pub fn minify_html(&self, content: &str) -> (r: String) {
        minified_html(content)
    }

    /// Scripts are passed through unchanged.
    pub fn minify_js(&self, content: &str) -> (r: String)
        ensures
            r@ == content@,
    {
        crate::text::to_string(content)
    }
}

} // verus!
