//! The highlight renderer: drive the tokenizer line by line against a
//! grammar and a theme and emit one HTML fragment, wrapped in a container
//! that carries the theme's base background color as a 24-bit hex string
//! (pure white when the theme gives none). A span's own background is
//! stated only where it differs from that base.

use vstd::prelude::*;

use crate::engine::{
    highlighter_start_of, new_highlighter, push_char, render_line_html, render_line_of,
    theme_background, theme_background_of,
};
use crate::lines::{first_line_end, lemma_first_line_end_bounds, LinesWithEndings};
use syntect::easy::HighlightLines;
use syntect::highlighting::Theme;
use syntect::parsing::{SyntaxReference, SyntaxSet};

verus! {

/// The lowercase hexadecimal digit for `n`.
pub open spec fn hex_digit(n: u8) -> char {
    if n == 0 {
        '0'
    } else if n == 1 {
        '1'
    } else if n == 2 {
        '2'
    } else if n == 3 {
        '3'
    } else if n == 4 {
        '4'
    } else if n == 5 {
        '5'
    } else if n == 6 {
        '6'
    } else if n == 7 {
        '7'
    } else if n == 8 {
        '8'
    } else if n == 9 {
        '9'
    } else if n == 10 {
        'a'
    } else if n == 11 {
        'b'
    } else if n == 12 {
        'c'
    } else if n == 13 {
        'd'
    } else if n == 14 {
        'e'
    } else {
        'f'
    }
}

/// A byte as two lowercase hexadecimal digits.
pub open spec fn hex_byte(b: u8) -> Seq<char> {
    seq![hex_digit(b / 16), hex_digit(b % 16)]
}

/// The theme's base background as (red, green, blue, alpha), defaulting
/// to pure white.
pub open spec fn base_background(t: Theme) -> (u8, u8, u8, u8) {
    match theme_background_of(t) {
        Some(c) => c,
        None => (255u8, 255u8, 255u8, 255u8),
    }
}

/// The fragment's opening container tag, carrying the background color.
pub open spec fn html_header(bg: (u8, u8, u8, u8)) -> Seq<char> {
    "<pre style=\"background-color:#"@ + hex_byte(bg.0) + hex_byte(bg.1) + hex_byte(bg.2)
        + ";\">\n"@
}

/// Render the lines of `rem` in order, appending each line's spans to
/// `acc`; `None` as soon as one line fails to highlight.
pub open spec fn render_lines(
    hl: HighlightLines,
    acc: Seq<char>,
    rem: Seq<char>,
    ss: SyntaxSet,
    bg: (u8, u8, u8, u8),
) -> Option<Seq<char>>
    decreases rem.len(),
    via render_lines_dec
{
    if rem.len() == 0 {
        Some(acc)
    } else {
        let line = rem.take(first_line_end(rem));
        let step = render_line_of(hl, line, ss, bg);
        match step.1 {
            None => None,
            Some(h) => render_lines(step.0, acc + h, rem.skip(first_line_end(rem)), ss, bg),
        }
    }
}

#[via_fn]
proof fn render_lines_dec(
    hl: HighlightLines,
    acc: Seq<char>,
    rem: Seq<char>,
    ss: SyntaxSet,
    bg: (u8, u8, u8, u8),
) {
    lemma_first_line_end_bounds(rem);
}

/// The whole rendered fragment for `code` under a grammar and a theme:
/// the container header carrying the theme's base background, every
/// line's spans in snippet order, and the closing tag; `None` when the
/// tokenizer fails on a line.
pub open spec fn render_spec(
    code: Seq<char>,
    syntax: SyntaxReference,
    theme: Theme,
    ss: SyntaxSet,
) -> Option<Seq<char>> {
    let bg = base_background(theme);
    match render_lines(highlighter_start_of(syntax, &theme), Seq::empty(), code, ss, bg) {
        None => None,
        Some(mid) => Some(html_header(bg) + mid + "</pre>"@),
    }
}

/// Rendering failed: the tokenizer rejected a line.
#[derive(Debug)]
pub struct RenderError;

fn hex_char(n: u8) -> (c: char)
    requires
        n < 16,
    ensures
        c == hex_digit(n),
{
    match n {
        0 => '0',
        1 => '1',
        2 => '2',
        3 => '3',
        4 => '4',
        5 => '5',
        6 => '6',
        7 => '7',
        8 => '8',
        9 => '9',
        10 => 'a',
        11 => 'b',
        12 => 'c',
        13 => 'd',
        14 => 'e',
        _ => 'f',
    }
}

fn push_hex_byte(out: &mut String, b: u8)
    ensures
        final(out)@ == old(out)@ + hex_byte(b),
{
    let hi = hex_char(b / 16);
    let lo = hex_char(b % 16);
    push_char(out, hi);
    push_char(out, lo);
    proof {
        assert(old(out)@.push(hi).push(lo) =~= old(out)@ + hex_byte(b));
    }
}

/// Render `s` as one HTML fragment under `syntax` and `theme`: the
/// container carrying the theme's base background, one escaped span per
/// styled run in strict snippet order, and the closing tag, exactly as
/// `render_spec` gives it. Fails exactly when `render_spec` does: on a
/// tokenizer fault.
pub fn highlighted_snippet_for_string_newlines(
    s: &str,
    syntax: &SyntaxReference,
    theme: &Theme,
    ss: &SyntaxSet,
) -> (r: Result<String, RenderError>)
    ensures
        match render_spec(s@, *syntax, *theme, *ss) {
            Some(out) => r matches Ok(o) && o@ == out,
            None => r matches Err(_),
        },
{
    let ghost bgs = base_background(*theme);
    let bg = match theme_background(theme) {
        Some(c) => c,
        None => (255u8, 255u8, 255u8, 255u8),
    };
    let mut out = String::new();
    out.append("<pre style=\"background-color:#");
    push_hex_byte(&mut out, bg.0);
    push_hex_byte(&mut out, bg.1);
    push_hex_byte(&mut out, bg.2);
    out.append(";\">\n");
    proof {
        assert(bg == bgs);
        assert(out@ =~= html_header(bgs));
    }
    let mut hl = new_highlighter(syntax, theme);
    let mut iter = LinesWithEndings::from(s);
    let ghost goal = render_lines(highlighter_start_of(*syntax, theme), Seq::empty(), s@, *ss, bgs);
    let ghost mut mid: Seq<char> = Seq::empty();
    proof {
        assert(out@ =~= html_header(bgs) + mid);
    }
    loop
        invariant
            out@ == html_header(bgs) + mid,
            goal == render_lines(hl, mid, iter.remaining(), *ss, bgs),
            goal == render_lines(
                highlighter_start_of(*syntax, theme),
                Seq::empty(),
                s@,
                *ss,
                bgs,
            ),
            bgs == base_background(*theme),
            bg == bgs,
        ensures
            iter.remaining().len() == 0,
            out@ == html_header(bgs) + mid,
            goal == render_lines(hl, mid, iter.remaining(), *ss, bgs),
        decreases iter.remaining().len(),
    {
        let ghost rem0 = iter.remaining();
        let ghost hl0 = hl;
        let line = match iter.next() {
            None => {
                break ;
            },
            Some(l) => l,
        };
        proof {
            lemma_first_line_end_bounds(rem0);
            assert(line@ == rem0.take(first_line_end(rem0)));
        }
        let html = match render_line_html(&mut hl, line, ss, bg) {
            None => {
                proof {
                    assert(render_line_of(hl0, line@, *ss, bgs).1 is None);
                    assert(goal is None);
                }
                return Err(RenderError);
            },
            Some(h) => h,
        };
        proof {
            assert(render_line_of(hl0, line@, *ss, bgs).1 == Some(html@));
            assert(hl == render_line_of(hl0, line@, *ss, bgs).0);
        }
        out.append(html.as_str());
        proof {
            mid = mid + html@;
            assert(out@ =~= html_header(bgs) + mid);
        }
    }
    proof {
        assert(goal == Some(mid));
    }
    out.append("</pre>");
    proof {
        assert(out@ == html_header(bgs) + mid + "</pre>"@);
    }
    Ok(out)
}

/// Law: render shape. Every successful render is the container header
/// carrying the theme's base background, the lines' spans, and the
/// closing tag.
pub proof fn lemma_render_shape(code: Seq<char>, syntax: SyntaxReference, theme: Theme, ss: SyntaxSet)
    ensures
        match render_spec(code, syntax, theme, ss) {
            Some(out) => exists|mid: Seq<char>|
                out == html_header(base_background(theme)) + mid + "</pre>"@,
            None => true,
        },
{
    let bg = base_background(theme);
    match render_lines(highlighter_start_of(syntax, &theme), Seq::empty(), code, ss, bg) {
        None => {},
        Some(mid) => {
            assert(render_spec(code, syntax, theme, ss) == Some(
                html_header(bg) + mid + "</pre>"@,
            ));
        },
    }
}

/// Law: render determinism. Two renders of the same snippet under the
/// same grammar, theme and catalog are byte-identical.
pub proof fn lemma_render_determinism(
    code: Seq<char>,
    syntax: SyntaxReference,
    theme: Theme,
    ss: SyntaxSet,
    r1: Option<Seq<char>>,
    r2: Option<Seq<char>>,
)
    requires
        r1 == render_spec(code, syntax, theme, ss),
        r2 == render_spec(code, syntax, theme, ss),
    ensures
        r1 == r2,
{
}

} // verus!
