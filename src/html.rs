//! Page generation: variable and macro substitution, and the live-reload
//! client placed before the last `</body>` in development.
use vstd::prelude::*;
use crate::text::{chars_of, find_last, last_occ, push_all, push_range, string_of};
use crate::variables::{MacroProcessor, Variables};

verus! {

/// `html` with `script` placed before its last `</body>`, or at its end.
pub open spec fn with_body_script(html: Seq<char>, script: Seq<char>) -> Seq<char> {
    match last_occ(html, "</body>"@, html.len() as int + 1) {
        Some(p) => html.subrange(0, p) + script + html.subrange(p, html.len() as int),
        None => html + script,
    }
}

/// Places the live-reload client script into a page.
pub fn inject_body_script(html: &str, script: &str) -> (r: String)
    ensures
        r@ == with_body_script(html@, script@),
{
    let h = chars_of(html);
    let sc = chars_of(script);
    let close = chars_of("</body>");
    match find_last(&h, &close) {
        Some(p) => {
            let mut out: Vec<char> = Vec::new();
            push_range(&mut out, &h, 0, p);
            push_all(&mut out, &sc);
            push_range(&mut out, &h, p, h.len());
            string_of(&out)
        },
        None => {
            let mut out = crate::text::copy_text(&h);
            push_all(&mut out, &sc);
            string_of(&out)
        },
    }
}

/// The live-reload client up to the port of its push endpoint. It swaps a
/// changed stylesheet, shows an error overlay for five seconds, reloads on
/// any other change, and after losing the connection retries every second,
/// reloading once it is back.
pub const RELOAD_HEAD: &'static str = "<script>
(function() {
    const overlay = document.createElement('div');
    overlay.style.cssText = 'position:fixed;top:0;left:0;right:0;background:rgba(200,0,0,0.85);color:white;padding:20px;font-family:monospace;font-size:14px;z-index:9999;display:none;white-space:pre-wrap;max-height:50vh;overflow-y:auto;';
    document.addEventListener('DOMContentLoaded', () => document.body.appendChild(overlay));
    function connect(reconnecting) {
        const ws = new WebSocket('ws://localhost:";

/// The live-reload client after the port.
pub const RELOAD_TAIL: &'static str = "/ws');
        ws.onopen = () => { if (reconnecting) { window.location.reload(); } };
        ws.onmessage = (event) => {
            if (event.data === 'reload') { window.location.reload(); return; }
            let data;
            try { data = JSON.parse(event.data); } catch (e) { return; }
            if (data.type === 'css') {
                document.querySelectorAll('link[rel=\"stylesheet\"]').forEach(link => {
                    if (link.href.includes(data.path)) {
                        link.href = link.href.split('?')[0] + '?t=' + Date.now();
                    }
                });
            } else if (data.type === 'error') {
                overlay.textContent = data.message;
                overlay.style.display = 'block';
                setTimeout(() => { overlay.style.display = 'none'; }, 5000);
            }
        };
        ws.onclose = () => { setTimeout(() => connect(true), 1000); };
    }
    connect(false);
})();
</script>";

pub open spec fn digit(d: nat) -> char {
    ((d + 48) as u8) as char
}

/// The decimal digits of `n`.
pub open spec fn decimal(n: nat) -> Seq<char>
    decreases n,
{
    if n < 10 {
        seq![digit(n)]
    } else {
        decimal(n / 10).push(digit(n % 10))
    }
}

/// The decimal digits of a number.
pub fn decimal_exec(n: u64) -> (r: Vec<char>)
    ensures
        r@ == decimal(n as nat),
    decreases n,
{
    let d: u8 = (n % 10) as u8;
    let c: char = (d + 48) as char;
    if n < 10 {
        let v = vec![c];
        assert(v@ =~= seq![digit(n as nat)]);
        v
    } else {
        let mut v = decimal_exec(n / 10);
        v.push(c);
        v
    }
}

/// The live-reload client for a push endpoint on `port`.
pub open spec fn reload_script(port: u16) -> Seq<char> {
    RELOAD_HEAD@ + decimal(port as nat) + RELOAD_TAIL@
}

/// Turns page sources into pages: variables are substituted, then macros
/// expanded, and in development mode the live-reload client is added.
#[derive(Clone, Debug)]
pub struct HtmlGenerator {
    variables: Option<Variables>,
    macro_processor: Option<MacroProcessor>,
    dev_mode: bool,
    ws_port: Option<u16>,
}

impl HtmlGenerator {
    pub closed spec fn vars(&self) -> Option<Variables> {
        self.variables
    }

    pub closed spec fn macros(&self) -> Option<MacroProcessor> {
        self.macro_processor
    }

    pub closed spec fn dev(&self) -> bool {
        self.dev_mode
    }

    pub closed spec fn port(&self) -> Option<u16> {
        self.ws_port
    }

    /// The page generated from `s`.
    pub open spec fn generated(&self, s: Seq<char>) -> Seq<char> {
        let a = match self.vars() {
            Some(v) => v.substitution(s),
            None => s,
        };
        let b = match self.macros() {
            Some(m) => m.processed(a),
            None => a,
        };
        match self.port() {
            Some(p) => if self.dev() {
                with_body_script(b, reload_script(p))
            } else {
                b
            },
            None => b,
        }
    }

    pub fn new() -> (r: Self)
        ensures
            r.vars().is_none(),
            r.macros().is_none(),
            !r.dev(),
            r.port().is_none(),
    {
        HtmlGenerator { variables: None, macro_processor: None, dev_mode: false, ws_port: None }
    }

    pub fn with_variables(self, vars: Variables) -> (r: Self)
        ensures
            r.vars() == Some(vars),
            r.macros() == self.macros(),
            r.dev() == self.dev(),
            r.port() == self.port(),
    {
        HtmlGenerator { variables: Some(vars), ..self }
    }

    pub fn with_macros(self, processor: MacroProcessor) -> (r: Self)
        ensures
            r.macros() == Some(processor),
            r.vars() == self.vars(),
            r.dev() == self.dev(),
            r.port() == self.port(),
    {
        HtmlGenerator { macro_processor: Some(processor), ..self }
    }

    pub fn with_dev_mode(self, enabled: bool, ws_port: Option<u16>) -> (r: Self)
        ensures
            r.dev() == enabled,
            r.port() == ws_port,
            r.vars() == self.vars(),
            r.macros() == self.macros(),
    {
        HtmlGenerator { dev_mode: enabled, ws_port, ..self }
    }

    pub fn get_variables(&self) -> (r: &Option<Variables>)
        ensures
            *r == self.vars(),
    {
        &self.variables
    }

    pub fn get_macro_processor(&self) -> (r: &Option<MacroProcessor>)
        ensures
            *r == self.macros(),
    {
        &self.macro_processor
    }

    /// The page generated from `content`.
    pub fn generate(&self, content: &str) -> (r: String)
        ensures
            r@ == self.generated(content@),
    {
        let a = match &self.variables {
            Some(v) => v.substitute(content),
            None => crate::text::to_string(content),
        };
        let b = match &self.macro_processor {
            Some(m) => m.process(a.as_str()),
            None => a,
        };
        if self.dev_mode {
            match self.ws_port {
                Some(p) => {
                    let mut script = chars_of(RELOAD_HEAD);
                    let digits = decimal_exec(p as u64);
                    push_all(&mut script, &digits);
                    let tail = chars_of(RELOAD_TAIL);
                    push_all(&mut script, &tail);
                    let sc = string_of(&script);
                    return inject_body_script(b.as_str(), sc.as_str());
                },
                None => {},
            }
        }
        b
    }
}

} // verus!
