//! The request handler: resolve a grammar for one query, then either
//! export scope annotations or render HTML, and shape every outcome —
//! including an internal tokenizer fault — as one structured response.

use vstd::prelude::*;

use crate::engine::{syntax_name, syntax_name_of, theme_by_name, theme_by_name_of};
use crate::export::{export_spec, scopify_string_newlines, Region};
use crate::html::{highlighted_snippet_for_string_newlines, render_spec};
use crate::resolve::{filepath_resolution, legacy_resolution, resolve_language, ResolveError};
use syntect::highlighting::{Theme, ThemeSet};
use syntect::parsing::{SyntaxReference, SyntaxSet};
use vstd::string::StringExecFns;

verus! {

/// One request: the snippet, how to pick its language, the theme, and
/// whether to export scopes instead of rendering HTML.
pub struct Query {
    /// Grammar lookup token; kept for old clients that send no filepath.
    pub extension: String,
    pub filepath: String,
    /// Export scope annotations instead of HTML.
    pub scopify: bool,
    pub theme: String,
    pub code: String,
}

/// One response: colorized HTML, a scope export, or a structured error.
pub enum Response {
    Html { data: String, plaintext: bool, detected_language: String },
    Scopes {
        plaintext: bool,
        detected_language: String,
        scope_names: Vec<String>,
        regions: Vec<Region>,
    },
    Error { error: String, code: Option<String> },
}

/// The error for a legacy request whose cascade found nothing. It carries
/// no machine-readable code, an asymmetry kept for compatibility.
pub open spec fn is_invalid_extension(r: Response) -> bool {
    &&& r matches Response::Error { error, code }
    &&& error@ == "invalid extension"@
    &&& code is None
}

/// The error for a theme name the store does not hold.
pub open spec fn is_invalid_theme(r: Response) -> bool {
    &&& r matches Response::Error { error, code }
    &&& error@ == "invalid theme"@
    &&& code matches Some(c) && c@ == "invalid_theme"@
}

/// The error that stands for any internal fault on the resolve, render or
/// export path.
pub open spec fn is_panic(r: Response) -> bool {
    &&& r matches Response::Error { error, code }
    &&& error@ == "panic while highlighting code"@
    &&& code matches Some(c) && c@ == "panic"@
}

/// The response owed once a grammar is resolved: the export for a scopify
/// query (or the fault error when the tokenizer fails), else the theme
/// lookup and the rendered HTML (or its errors).
pub open spec fn resolved_response(
    r: Response,
    ss: SyntaxSet,
    ts: ThemeSet,
    q: Query,
    g: SyntaxReference,
    pt: bool,
) -> bool {
    if q.scopify {
        match export_spec(q.code@, g, ss) {
            Some(out) => {
                &&& r matches Response::Scopes {
                    plaintext,
                    detected_language,
                    scope_names,
                    regions,
                }
                &&& plaintext == pt
                &&& detected_language@ == syntax_name_of(g)
                &&& scope_names.deep_view() == out.0
                &&& regions.deep_view() == out.1
            },
            None => is_panic(r),
        }
    } else {
        match theme_by_name_of(ts, q.theme@) {
            None => is_invalid_theme(r),
            Some(t) => match render_spec(q.code@, g, t, ss) {
                Some(out) => {
                    &&& r matches Response::Html { data, plaintext, detected_language }
                    &&& plaintext == pt
                    &&& detected_language@ == syntax_name_of(g)
                    &&& data@ == out
                },
                None => is_panic(r),
            },
        }
    }
}

/// Everything `highlight` promises of its response: the resolution
/// cascade picks the grammar, and each outcome of the lookup, export and
/// render paths fixes the response.
pub open spec fn highlight_post(r: Response, ss: SyntaxSet, ts: ThemeSet, q: Query) -> bool {
    &&& q.filepath@.len() == 0 ==> match legacy_resolution(ss, q.extension@, q.code@) {
        None => is_invalid_extension(r),
        Some(g) => resolved_response(r, ss, ts, q, g, false),
    }
    &&& q.filepath@.len() > 0 ==> match filepath_resolution(ss, q.filepath@, q.code@) {
        None => is_panic(r),
        Some(gp) => resolved_response(r, ss, ts, q, gp.0, gp.1),
    }
}

/// Two responses of the same shape whose field values are equal.
pub open spec fn response_equivalent(r1: Response, r2: Response) -> bool {
    match (r1, r2) {
        (
            Response::Html { data: d1, plaintext: p1, detected_language: l1 },
            Response::Html { data: d2, plaintext: p2, detected_language: l2 },
        ) => d1@ == d2@ && p1 == p2 && l1@ == l2@,
        (
            Response::Scopes {
                plaintext: p1,
                detected_language: l1,
                scope_names: n1,
                regions: rs1,
            },
            Response::Scopes {
                plaintext: p2,
                detected_language: l2,
                scope_names: n2,
                regions: rs2,
            },
        ) => p1 == p2 && l1@ == l2@ && n1.deep_view() == n2.deep_view() && rs1.deep_view()
            == rs2.deep_view(),
        (Response::Error { error: e1, code: c1 }, Response::Error { error: e2, code: c2 }) => e1@
            == e2@ && match (c1, c2) {
            (Some(a), Some(b)) => a@ == b@,
            (None, None) => true,
            _ => false,
        },
        _ => false,
    }
}

/// Law: handler determinism. The catalogs are fixed for the process
/// lifetime, so two calls whose queries carry equal field values receive
/// equivalent responses — same shape, equal field values — as long as
/// the tokenizer paths resolve the same way, which `export_spec` and
/// `render_spec` fix as functions of the query and the catalogs.
pub proof fn lemma_highlight_determinism(
    ss: SyntaxSet,
    ts: ThemeSet,
    q1: Query,
    q2: Query,
    r1: Response,
    r2: Response,
)
    requires
        q1.extension@ == q2.extension@,
        q1.filepath@ == q2.filepath@,
        q1.scopify == q2.scopify,
        q1.theme@ == q2.theme@,
        q1.code@ == q2.code@,
        highlight_post(r1, ss, ts, q1),
        highlight_post(r2, ss, ts, q2),
    ensures
        response_equivalent(r1, r2),
{
}

/// Law: fallback at the handler. With a file path present and no grammar
/// matching its whole name, its extension or the snippet's first line,
/// the request is never answered with the invalid-extension error: it
/// degrades to the plain-text grammar (plaintext set, that grammar's
/// name reported), and only a tokenizer fault can replace the success
/// payload with the panic error.
pub proof fn lemma_handler_fallback(
    ss: SyntaxSet,
    ts: ThemeSet,
    q: Query,
    plain: SyntaxReference,
    r: Response,
)
    requires
        q.filepath@.len() > 0,
        crate::engine::syntax_by_extension_of(
            ss,
            crate::resolve::file_name_of(q.filepath@),
        ) is None,
        crate::engine::syntax_by_extension_of(
            ss,
            crate::resolve::extension_of(crate::resolve::file_name_of(q.filepath@)),
        ) is None,
        crate::engine::syntax_by_first_line_of(ss, q.code@) is None,
        crate::engine::syntax_by_name_of(ss, "Plain Text"@) == Some(plain),
        highlight_post(r, ss, ts, q),
    ensures
        !is_invalid_extension(r),
        q.scopify && export_spec(q.code@, plain, ss) is Some ==> {
            &&& r matches Response::Scopes { plaintext, detected_language, .. }
            &&& plaintext == true
            &&& detected_language@ == syntax_name_of(plain)
        },
        !q.scopify ==> match theme_by_name_of(ts, q.theme@) {
            None => is_invalid_theme(r),
            Some(t) => render_spec(q.code@, plain, t, ss) is Some ==> {
                &&& r matches Response::Html { plaintext, detected_language, .. }
                &&& plaintext == true
                &&& detected_language@ == syntax_name_of(plain)
            },
        },
{
    assert(filepath_resolution(ss, q.filepath@, q.code@) == Some((plain, true)));
    assert(resolved_response(r, ss, ts, q, plain, true));
    lemma_error_texts_differ(r);
}

proof fn lemma_error_texts_differ(r: Response)
    ensures
        is_invalid_theme(r) ==> !is_invalid_extension(r),
        is_panic(r) ==> !is_invalid_extension(r),
{
    reveal_strlit("invalid extension");
    reveal_strlit("invalid theme");
    reveal_strlit("panic while highlighting code");
}

/// Law: HTML scenario shape. When the whole-file-name lookup resolves a
/// grammar, the theme is present, and rendering succeeds, the response is
/// an HTML success naming that grammar, not flagged plaintext, with
/// non-empty data.
pub proof fn lemma_html_scenario(
    ss: SyntaxSet,
    ts: ThemeSet,
    q: Query,
    g: SyntaxReference,
    t: Theme,
    r: Response,
)
    requires
        q.filepath@.len() > 0,
        crate::engine::syntax_by_extension_of(
            ss,
            crate::resolve::file_name_of(q.filepath@),
        ) == Some(g),
        !q.scopify,
        theme_by_name_of(ts, q.theme@) == Some(t),
        render_spec(q.code@, g, t, ss) is Some,
        highlight_post(r, ss, ts, q),
    ensures
        r matches Response::Html { data, plaintext, detected_language } && plaintext == false
            && detected_language@ == syntax_name_of(g) && data@.len() > 0,
{
    assert(filepath_resolution(ss, q.filepath@, q.code@) == Some((g, false)));
    let bg = crate::html::base_background(t);
    match crate::html::render_lines(
        crate::engine::highlighter_start_of(g, &t),
        Seq::empty(),
        q.code@,
        ss,
        bg,
    ) {
        None => {},
        Some(mid) => {
            reveal_strlit("</pre>");
            assert(render_spec(q.code@, g, t, ss) == Some(
                crate::html::html_header(bg) + mid + "</pre>"@,
            ));
        },
    }
}

/// Law: export scenario shape. When the whole-file-name lookup resolves a
/// grammar and the export succeeds, the response is an export success
/// naming that grammar, not flagged plaintext, whose region lengths sum
/// exactly to the snippet's byte length.
pub proof fn lemma_scopify_scenario(
    ss: SyntaxSet,
    ts: ThemeSet,
    q: Query,
    g: SyntaxReference,
    r: Response,
)
    requires
        q.filepath@.len() > 0,
        crate::engine::syntax_by_extension_of(
            ss,
            crate::resolve::file_name_of(q.filepath@),
        ) == Some(g),
        q.scopify,
        export_spec(q.code@, g, ss) is Some,
        highlight_post(r, ss, ts, q),
    ensures
        r matches Response::Scopes { plaintext, detected_language, scope_names, regions }
            && plaintext == false && detected_language@ == syntax_name_of(g)
            && crate::export::sum_lengths(regions.deep_view()) == vstd::utf8::encode_utf8(
            q.code@,
        ).len(),
{
    assert(filepath_resolution(ss, q.filepath@, q.code@) == Some((g, false)));
    crate::export::lemma_export_partition(q.code@, g, ss);
}

fn panic_response() -> (r: Response)
    ensures
        is_panic(r),
{
    Response::Error {
        error: String::from_str("panic while highlighting code"),
        code: Some(String::from_str("panic")),
    }
}

/// Handle one query: resolve the language (an exhausted legacy cascade is
/// the `invalid extension` error), then export scopes or resolve the
/// theme (an unknown name is the `invalid theme` error) and render HTML;
/// any internal tokenizer fault becomes the `panic` error response.
pub fn highlight(ss: &SyntaxSet, ts: &ThemeSet, q: &Query) -> (r: Response)
    ensures
        highlight_post(r, *ss, *ts, *q),
{
    let resolved = resolve_language(ss, q.extension.as_str(), q.filepath.as_str(), q.code.as_str());
    match resolved {
        Err(ResolveError::InvalidExtension) => Response::Error {
            error: String::from_str("invalid extension"),
            code: None,
        },
        Err(ResolveError::NoPlainText) => panic_response(),
        Ok((g, pt)) => {
            if q.scopify {
                match scopify_string_newlines(q.code.as_str(), g, ss) {
                    Ok(exported) => Response::Scopes {
                        plaintext: pt,
                        detected_language: syntax_name(g),
                        scope_names: exported.0,
                        regions: exported.1,
                    },
                    Err(_) => panic_response(),
                }
            } else {
                match theme_by_name(ts, q.theme.as_str()) {
                    None => Response::Error {
                        error: String::from_str("invalid theme"),
                        code: Some(String::from_str("invalid_theme")),
                    },
                    Some(t) => {
                        match highlighted_snippet_for_string_newlines(q.code.as_str(), g, t, ss) {
                            Ok(html) => Response::Html {
                                data: html,
                                plaintext: pt,
                                detected_language: syntax_name(g),
                            },
                            Err(_) => panic_response(),
                        }
                    },
                }
            }
        },
    }
}

} // verus!
