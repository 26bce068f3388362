//! Trusted boundary to the syntect grammar/tokenizer engine and theme
//! store. The catalogs are immutable and the tokenizer is a deterministic
//! algorithm, so the results of its operations are named as functions of
//! their arguments; nothing else is assumed of them.

use vstd::prelude::*;

use syntect::easy::HighlightLines;
use syntect::highlighting::{Theme, ThemeSet};
use syntect::parsing::{ParseState, Scope, ScopeStack, ScopeStackOp, SyntaxReference, SyntaxSet};

verus! {

#[verifier::external_type_specification]
#[verifier::external_body]
pub struct ExSyntaxSet(SyntaxSet);

#[verifier::external_type_specification]
#[verifier::external_body]
pub struct ExSyntaxReference(SyntaxReference);

#[verifier::external_type_specification]
#[verifier::external_body]
pub struct ExParseState(ParseState);

#[verifier::external_type_specification]
#[verifier::external_body]
pub struct ExScopeStack(ScopeStack);

#[verifier::external_type_specification]
#[verifier::external_body]
pub struct ExScopeStackOp(ScopeStackOp);

#[verifier::external_type_specification]
#[verifier::external_body]
pub struct ExScope(Scope);

#[verifier::external_type_specification]
#[verifier::external_body]
pub struct ExTheme(Theme);

#[verifier::external_type_specification]
#[verifier::external_body]
pub struct ExThemeSet(ThemeSet);

#[verifier::external_type_specification]
#[verifier::external_body]
pub struct ExHighlightLines<'a>(HighlightLines<'a>);

/// The grammar the catalog stores under an extension token (a true file
/// extension, or a whole file name that a grammar registers as one).
pub uninterp spec fn syntax_by_extension_of(ss: SyntaxSet, token: Seq<char>) -> Option<
    SyntaxReference,
>;

/// The grammar whose first-line pattern matches the start of the snippet.
pub uninterp spec fn syntax_by_first_line_of(ss: SyntaxSet, code: Seq<char>) -> Option<
    SyntaxReference,
>;

/// The grammar the catalog stores under a display name.
pub uninterp spec fn syntax_by_name_of(ss: SyntaxSet, name: Seq<char>) -> Option<SyntaxReference>;

/// A grammar's display name.
pub uninterp spec fn syntax_name_of(s: SyntaxReference) -> Seq<char>;

/// The theme the store holds under a name.
pub uninterp spec fn theme_by_name_of(ts: ThemeSet, name: Seq<char>) -> Option<Theme>;

/// A theme's base background color as (red, green, blue, alpha), when it
/// specifies one.
pub uninterp spec fn theme_background_of(t: Theme) -> Option<(u8, u8, u8, u8)>;

/// The fresh tokenizer session for a grammar: its initial parser state
/// and the empty scope stack.
pub uninterp spec fn export_start_of(s: SyntaxReference) -> (ParseState, ScopeStack);

/// What parsing one line does: the successor parser state and, on
/// success, the scope operations with their byte offsets into the line.
pub uninterp spec fn parse_line_of(st: ParseState, line: Seq<char>, ss: SyntaxSet) -> (
    ParseState,
    Option<Seq<(usize, ScopeStackOp)>>,
);

/// What one scope operation does to a scope stack, and whether it applies
/// cleanly.
pub uninterp spec fn apply_op_of(st: ScopeStack, op: ScopeStackOp) -> (ScopeStack, bool);

/// The open scopes of a stack, outermost first.
pub uninterp spec fn scopes_of(st: ScopeStack) -> Seq<Scope>;

/// A scope's dotted name.
pub uninterp spec fn scope_name_of(s: Scope) -> Seq<char>;

/// The fresh highlighter session for a grammar and a theme.
pub uninterp spec fn highlighter_start_of(s: SyntaxReference, t: &Theme) -> HighlightLines;

/// What rendering one line does: the successor highlighter session and,
/// on success, the line's spans as escaped HTML, each span's background
/// stated only where it differs from `bg`.
pub uninterp spec fn render_line_of(
    hl: HighlightLines,
    line: Seq<char>,
    ss: SyntaxSet,
    bg: (u8, u8, u8, u8),
) -> (HighlightLines, Option<Seq<char>>);

/// Relies on str::len: the length of a string slice in bytes. A slice is
/// never longer than isize::MAX bytes, so the count is exact, not
/// truncated.
#[verifier::external_body]
pub(crate) fn byte_len(s: &str) -> (n: usize)
    ensures
        n as int == vstd::utf8::encode_utf8(s@).len(),
{
    s.len()
}

/// Relies on String::push: appends one character.
#[verifier::external_body]
pub(crate) fn push_char(s: &mut String, c: char)
    ensures
        final(s)@ == old(s)@.push(c),
{
    s.push(c)
}

/// Relies on SyntaxSet::find_syntax_by_extension: looks the token up in
/// the catalog's registered file extensions, which may be whole file
/// names; a function of the catalog and the token alone.
#[verifier::external_body]
pub(crate) fn find_syntax_by_extension<'a>(ss: &'a SyntaxSet, token: &str) -> (r: Option<
    &'a SyntaxReference,
>)
    ensures
        match r {
            Some(s) => syntax_by_extension_of(*ss, token@) == Some(*s),
            None => syntax_by_extension_of(*ss, token@) is None,
        },
{
    ss.find_syntax_by_extension(token)
}

/// Relies on SyntaxSet::find_syntax_by_first_line: matches the snippet's
/// first line against the grammars' first-line patterns.
#[verifier::external_body]
pub(crate) fn find_syntax_by_first_line<'a>(ss: &'a SyntaxSet, code: &str) -> (r: Option<
    &'a SyntaxReference,
>)
    ensures
        match r {
            Some(s) => syntax_by_first_line_of(*ss, code@) == Some(*s),
            None => syntax_by_first_line_of(*ss, code@) is None,
        },
{
    ss.find_syntax_by_first_line(code)
}

/// Relies on SyntaxSet::find_syntax_by_name: looks a grammar up by its
/// display name.
#[verifier::external_body]
pub(crate) fn find_syntax_by_name<'a>(ss: &'a SyntaxSet, name: &str) -> (r: Option<
    &'a SyntaxReference,
>)
    ensures
        match r {
            Some(s) => syntax_by_name_of(*ss, name@) == Some(*s),
            None => syntax_by_name_of(*ss, name@) is None,
        },
{
    ss.find_syntax_by_name(name)
}

/// Relies on SyntaxReference's public `name` field: the grammar's display
/// name.
#[verifier::external_body]
pub(crate) fn syntax_name(s: &SyntaxReference) -> (r: String)
    ensures
        r@ == syntax_name_of(*s),
{
    s.name.clone()
}

/// Relies on ThemeSet's public `themes` map (a BTreeMap): the theme
/// stored under the name, if any.
#[verifier::external_body]
pub(crate) fn theme_by_name<'a>(ts: &'a ThemeSet, name: &str) -> (r: Option<&'a Theme>)
    ensures
        match r {
            Some(t) => theme_by_name_of(*ts, name@) == Some(*t),
            None => theme_by_name_of(*ts, name@) is None,
        },
{
    ts.themes.get(name)
}

/// Relies on Theme's public `settings.background` field: the theme's base
/// background color.
#[verifier::external_body]
pub(crate) fn theme_background(t: &Theme) -> (r: Option<(u8, u8, u8, u8)>)
    ensures
        r == theme_background_of(*t),
{
    match t.settings.background {
        Some(c) => Some((c.r, c.g, c.b, c.a)),
        None => None,
    }
}

/// Relies on ParseState::new and ScopeStack::new: a fresh parser state
/// for the grammar, and the empty scope stack.
#[verifier::external_body]
pub(crate) fn export_start(syntax: &SyntaxReference) -> (r: (ParseState, ScopeStack))
    ensures
        r == export_start_of(*syntax),
        scopes_of(r.1) == Seq::<Scope>::empty(),
{
    (ParseState::new(syntax), ScopeStack::new())
}

/// Relies on ParseState::parse_line: the scope-stack operations for one
/// line, each with its byte offset into the line, a pure function of the
/// parser state, the line and the syntax set. `None` is a parse failure.
#[verifier::external_body]
pub(crate) fn parse_line(state: &mut ParseState, line: &str, ss: &SyntaxSet) -> (r: Option<
    Vec<(usize, ScopeStackOp)>,
>)
    ensures
        *final(state) == parse_line_of(*old(state), line@, *ss).0,
        match r {
            Some(v) => parse_line_of(*old(state), line@, *ss).1 == Some(v@),
            None => parse_line_of(*old(state), line@, *ss).1 is None,
        },
{
    match state.parse_line(line, ss) {
        Ok(v) => Some(v),
        Err(_) => None,
    }
}

/// Relies on ScopeStack::apply: pushes and pops the named scopes the
/// operation gives. `false` is a scope error.
#[verifier::external_body]
pub(crate) fn apply_op(stack: &mut ScopeStack, op: &ScopeStackOp) -> (ok: bool)
    ensures
        (*final(stack), ok) == apply_op_of(*old(stack), *op),
{
    stack.apply(op).is_ok()
}

/// Relies on ScopeStack::as_slice: the currently open scopes, outermost
/// (bottom of the stack) first.
#[verifier::external_body]
pub(crate) fn stack_scopes(stack: &ScopeStack) -> (r: Vec<Scope>)
    ensures
        r@ == scopes_of(*stack),
{
    stack.as_slice().to_vec()
}

/// Relies on Scope::build_string: the scope's dotted name. The process-
/// wide scope repository is append-only, so a scope value denotes one
/// name.
#[verifier::external_body]
pub(crate) fn scope_display(s: &Scope) -> (r: String)
    ensures
        r@ == scope_name_of(*s),
{
    s.build_string()
}

/// Relies on HighlightLines::new: a fresh highlighter session, a function
/// of the grammar and the theme alone.
#[verifier::external_body]
pub(crate) fn new_highlighter<'a>(syntax: &SyntaxReference, theme: &'a Theme) -> (r: HighlightLines<
    'a,
>)
    ensures
        r == highlighter_start_of(*syntax, theme),
{
    HighlightLines::new(syntax, theme)
}

/// Relies on HighlightLines::highlight_line for one line's styled spans,
/// and on styled_line_to_highlighted_html to render them as escaped HTML,
/// stating a span's background only where it differs from `bg` (red,
/// green, blue, alpha); both are pure functions of the session, the line,
/// the syntax set and the background. `None` is a highlighting failure.
#[verifier::external_body]
pub(crate) fn render_line_html<'a>(
    hl: &mut HighlightLines<'a>,
    line: &str,
    ss: &SyntaxSet,
    bg: (u8, u8, u8, u8),
) -> (r: Option<String>)
    ensures
        *final(hl) == render_line_of(*old(hl), line@, *ss, bg).0,
        match r {
            Some(h) => render_line_of(*old(hl), line@, *ss, bg).1 == Some(h@),
            None => render_line_of(*old(hl), line@, *ss, bg).1 is None,
        },
{
    let c = syntect::highlighting::Color { r: bg.0, g: bg.1, b: bg.2, a: bg.3 };
    let spans = match hl.highlight_line(line, ss) {
        Ok(v) => v,
        Err(_) => return None,
    };
    let ib = syntect::html::IncludeBackground::IfDifferent(c);
    match syntect::html::styled_line_to_highlighted_html(&spans[..], ib) {
        Ok(h) => Some(h),
        Err(_) => None,
    }
}

} // verus!
