//! The language-resolution cascade: pick one grammar for a request from
//! its extension, file path and code.
//!
//! With no file path (the legacy route) the cascade is extension, then
//! first line, then an error. With a file path it is whole file name,
//! then the name's extension, then first line, then the plain-text
//! grammar — whole names come first because some grammars register an
//! "extension" that is really an exact file name.

use vstd::prelude::*;

use crate::engine::{
    find_syntax_by_extension, find_syntax_by_first_line, find_syntax_by_name,
    syntax_by_extension_of, syntax_by_first_line_of, syntax_by_name_of,
};
use syntect::parsing::{SyntaxReference, SyntaxSet};
use vstd::string::StrSliceExecFns;

verus! {

/// The characters after the last '/' of `p`.
pub open spec fn after_last_slash(p: Seq<char>) -> Seq<char>
    decreases p.len(),
{
    if p.len() == 0 {
        p
    } else if p[p.len() - 1] == '/' {
        Seq::empty()
    } else {
        after_last_slash(p.drop_last()).push(p[p.len() - 1])
    }
}

/// The file-name component of a path: the last path segment, with
/// trailing slashes and trailing `.` segments ignored, and empty when the
/// path ends in a `..` segment or has no segment at all.
pub open spec fn file_name_of(p: Seq<char>) -> Seq<char>
    decreases p.len(),
{
    if p.len() == 0 {
        Seq::empty()
    } else if p[p.len() - 1] == '/' {
        file_name_of(p.drop_last())
    } else {
        let seg = after_last_slash(p);
        if seg == seq!['.'] {
            file_name_of(p.drop_last())
        } else if seg == seq!['.', '.'] {
            Seq::empty()
        } else {
            seg
        }
    }
}

/// The index of the last '.' of `name` that is not its first character,
/// or -1 when there is none.
pub open spec fn last_dot_index(name: Seq<char>) -> int
    decreases name.len(),
{
    if name.len() <= 1 {
        -1
    } else if name[name.len() - 1] == '.' {
        name.len() - 1
    } else {
        last_dot_index(name.drop_last())
    }
}

/// The extension component of a file name: the characters after the last
/// embedded '.', and empty when the name has none (a single leading '.'
/// does not begin an extension).
pub open spec fn extension_of(name: Seq<char>) -> Seq<char> {
    if last_dot_index(name) == -1 {
        Seq::empty()
    } else {
        name.skip(last_dot_index(name) + 1)
    }
}

proof fn lemma_after_last_slash_at(p: Seq<char>, k: int)
    requires
        0 <= k <= p.len(),
        forall|j: int| k <= j < p.len() ==> p[j] != '/',
        k > 0 ==> p[k - 1] == '/',
    ensures
        after_last_slash(p) == p.skip(k),
    decreases p.len(),
{
    if p.len() == 0 {
        assert(after_last_slash(p) =~= p.skip(0));
    } else if k == p.len() {
        assert(after_last_slash(p) =~= p.skip(k));
    } else {
        assert(p[p.len() - 1] != '/');
        lemma_after_last_slash_at(p.drop_last(), k);
        assert(after_last_slash(p) =~= p.skip(k));
    }
}

proof fn lemma_last_dot_at(name: Seq<char>, k: int)
    requires
        0 <= k <= name.len(),
        forall|j: int| k <= j < name.len() ==> name[j] != '.',
        k >= 2 ==> name[k - 1] == '.',
    ensures
        last_dot_index(name) == if k >= 2 {
            k - 1
        } else {
            -1
        },
    decreases name.len(),
{
    if name.len() <= 1 {
    } else if k == name.len() {
    } else {
        assert(name[name.len() - 1] != '.');
        lemma_last_dot_at(name.drop_last(), k);
    }
}

/// The file-name component of `p`, as `file_name_of` gives it.
pub fn file_name<'a>(p: &'a str) -> (r: &'a str)
    ensures
        r@ == file_name_of(p@),
    decreases p@.len(),
{
    let n = p.unicode_len();
    if n == 0 {
        return p;
    }
    if p.get_char(n - 1) == '/' {
        let r = file_name(p.substring_char(0, n - 1));
        proof {
            assert(p@.take(n - 1) =~= p@.drop_last());
        }
        return r;
    }
    let mut k: usize = n;
    while k > 0 && p.get_char(k - 1) != '/'
        invariant
            0 <= k <= n,
            n == p@.len(),
            forall|j: int| k <= j < n ==> p@[j] != '/',
        decreases k,
    {
        k = k - 1;
    }
    proof {
        lemma_after_last_slash_at(p@, k as int);
    }
    let seg = p.substring_char(k, n);
    proof {
        assert(seg@ =~= p@.skip(k as int));
    }
    let seglen = n - k;
    if seglen == 1 && p.get_char(k) == '.' {
        proof {
            assert(seg@ =~= seq!['.']);
            assert(p@.take(n - 1) =~= p@.drop_last());
        }
        let r = file_name(p.substring_char(0, n - 1));
        return r;
    }
    if seglen == 2 && p.get_char(k) == '.' && p.get_char(k + 1) == '.' {
        proof {
            assert(seg@ =~= seq!['.', '.']);
            reveal_strlit("");
            assert(""@ =~= Seq::<char>::empty());
        }
        return "";
    }
    proof {
        if seg@ == seq!['.'] {
            assert(seg@.len() == 1);
            assert(seg@[0] == '.');
            assert(false);
        }
        if seg@ == seq!['.', '.'] {
            assert(seg@.len() == 2);
            assert(seg@[0] == '.' && seg@[1] == '.');
            assert(false);
        }
    }
    seg
}

/// The extension component of file name `name`, as `extension_of` gives
/// it.
pub fn extension<'a>(name: &'a str) -> (r: &'a str)
    ensures
        r@ == extension_of(name@),
{
    let n = name.unicode_len();
    let mut k: usize = n;
    while k > 1 && name.get_char(k - 1) != '.'
        invariant
            0 <= k <= n,
            n == name@.len(),
            forall|j: int| k <= j < n ==> name@[j] != '.',
        decreases k,
    {
        k = k - 1;
    }
    if k > 1 {
        proof {
            lemma_last_dot_at(name@, k as int);
        }
        let r = name.substring_char(k, n);
        proof {
            assert(r@ =~= name@.skip(k as int));
        }
        r
    } else {
        proof {
            lemma_last_dot_at(name@, k as int);
            reveal_strlit("");
            assert(""@ =~= Seq::<char>::empty());
        }
        ""
    }
}

/// Resolution on the legacy route (no file path): the grammar under the
/// literal extension, else the one matching the snippet's first line.
pub open spec fn legacy_resolution(ss: SyntaxSet, extension: Seq<char>, code: Seq<char>) -> Option<
    SyntaxReference,
> {
    match syntax_by_extension_of(ss, extension) {
        Some(s) => Some(s),
        None => syntax_by_first_line_of(ss, code),
    }
}

/// Resolution with a file path: whole file name first, then its
/// extension, then the first line, then the plain-text grammar with the
/// plaintext flag set. `None` only when the catalog lacks its plain-text
/// grammar.
pub open spec fn filepath_resolution(ss: SyntaxSet, filepath: Seq<char>, code: Seq<char>) -> Option<
    (SyntaxReference, bool),
> {
    let fname = file_name_of(filepath);
    match syntax_by_extension_of(ss, fname) {
        Some(s) => Some((s, false)),
        None => match syntax_by_extension_of(ss, extension_of(fname)) {
            Some(s) => Some((s, false)),
            None => match syntax_by_first_line_of(ss, code) {
                Some(s) => Some((s, false)),
                None => match syntax_by_name_of(ss, "Plain Text"@) {
                    Some(p) => Some((p, true)),
                    None => None,
                },
            },
        },
    }
}

/// Why language resolution failed.
#[derive(Debug)]
pub enum ResolveError {
    /// The legacy route exhausted its cascade: no grammar for the
    /// extension and none matching the first line.
    InvalidExtension,
    /// The catalog has no plain-text grammar to degrade to.
    NoPlainText,
}

/// Pick one grammar for `(extension, filepath, code)` and say whether it
/// is the plain-text fallback. Only the legacy route (empty `filepath`)
/// can fail with `InvalidExtension`; with a file path present resolution
/// degrades to plain text instead.
pub fn resolve_language<'a>(
    ss: &'a SyntaxSet,
    extension: &str,
    filepath: &str,
    code: &str,
) -> (r: Result<(&'a SyntaxReference, bool), ResolveError>)
    ensures
        filepath@.len() == 0 ==> match legacy_resolution(*ss, extension@, code@) {
            Some(s) => r matches Ok(g) && *g.0 == s && g.1 == false,
            None => r matches Err(ResolveError::InvalidExtension),
        },
        filepath@.len() > 0 ==> match filepath_resolution(*ss, filepath@, code@) {
            Some(gp) => r matches Ok(g) && *g.0 == gp.0 && g.1 == gp.1,
            None => r matches Err(ResolveError::NoPlainText),
        },
{
    if filepath.is_empty() {
        match find_syntax_by_extension(ss, extension) {
            Some(s) => Ok((s, false)),
            None => match find_syntax_by_first_line(ss, code) {
                Some(s) => Ok((s, false)),
                None => Err(ResolveError::InvalidExtension),
            },
        }
    } else {
        let fname = file_name(filepath);
        match find_syntax_by_extension(ss, fname) {
            Some(s) => Ok((s, false)),
            None => {
                let fext = crate::resolve::extension(fname);
                match find_syntax_by_extension(ss, fext) {
                    Some(s) => Ok((s, false)),
                    None => match find_syntax_by_first_line(ss, code) {
                        Some(s) => Ok((s, false)),
                        None => match find_syntax_by_name(ss, "Plain Text") {
                            Some(p) => Ok((p, true)),
                            None => Err(ResolveError::NoPlainText),
                        },
                    },
                }
            },
        }
    }
}

/// Law: cascade order. When the whole file name matches a grammar, that
/// match wins, whatever a lookup by the name's extension would give.
pub proof fn lemma_whole_name_wins(
    ss: SyntaxSet,
    filepath: Seq<char>,
    code: Seq<char>,
    g: SyntaxReference,
)
    requires
        syntax_by_extension_of(ss, file_name_of(filepath)) == Some(g),
    ensures
        filepath_resolution(ss, filepath, code) == Some((g, false)),
{
}

/// Law: fallback asymmetry. On inputs that no extension, file-name or
/// first-line lookup resolves, a present file path degrades to the
/// plain-text grammar with the plaintext flag set and never errs (as long
/// as the catalog has that grammar), while the legacy route resolves
/// nothing at all.
pub proof fn lemma_fallback_asymmetry(
    ss: SyntaxSet,
    extension: Seq<char>,
    filepath: Seq<char>,
    code: Seq<char>,
    plain: SyntaxReference,
)
    requires
        syntax_by_extension_of(ss, file_name_of(filepath)) is None,
        syntax_by_extension_of(ss, extension_of(file_name_of(filepath))) is None,
        syntax_by_extension_of(ss, extension) is None,
        syntax_by_first_line_of(ss, code) is None,
        syntax_by_name_of(ss, "Plain Text"@) == Some(plain),
    ensures
        filepath_resolution(ss, filepath, code) == Some((plain, true)),
        legacy_resolution(ss, extension, code) is None,
{
}

} // verus!
