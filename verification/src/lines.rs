//! Splitting a snippet into lines that keep their newline character.
//!
//! A line is every maximal substring ending at and including a newline,
//! or the final partial line with no trailing newline. The tokenizer is
//! driven strictly line by line over these.

use vstd::prelude::*;
use vstd::string::StrSliceExecFns;
use vstd::utf8::encode_utf8;

verus! {

/// Length in chars of the first line of `s`: everything up to and
/// including the first newline, or all of `s` when it has none.
pub open spec fn first_line_end(s: Seq<char>) -> int
    decreases s.len(),
{
    if s.len() == 0 {
        0
    } else if s[0] == '\n' {
        1
    } else {
        1 + first_line_end(s.drop_first())
    }
}

pub proof fn lemma_first_line_end_bounds(s: Seq<char>)
    ensures
        0 <= first_line_end(s) <= s.len(),
        s.len() > 0 ==> 1 <= first_line_end(s),
    decreases s.len(),
{
    if s.len() > 0 && s[0] != '\n' {
        lemma_first_line_end_bounds(s.drop_first());
    }
}

proof fn lemma_first_line_end_at(s: Seq<char>, k: int)
    requires
        0 <= k <= s.len(),
        forall|j: int| 0 <= j < k ==> s[j] != '\n',
        k < s.len() ==> s[k] == '\n',
    ensures
        first_line_end(s) == if k < s.len() { k + 1 } else { k },
    decreases s.len(),
{
    if k > 0 {
        lemma_first_line_end_at(s.drop_first(), k - 1);
    }
}

/// UTF-8 encoding distributes over concatenation; the byte length of a
/// snippet is therefore the sum of the byte lengths of its lines.
pub proof fn lemma_encode_utf8_concat(a: Seq<char>, b: Seq<char>)
    ensures
        encode_utf8(a + b) == encode_utf8(a) + encode_utf8(b),
    decreases a.len(),
{
    if a.len() == 0 {
        assert(a + b =~= b);
        assert(encode_utf8(a) + encode_utf8(b) =~= encode_utf8(b));
    } else {
        assert((a + b)[0] == a[0]);
        assert((a + b).drop_first() =~= a.drop_first() + b);
        lemma_encode_utf8_concat(a.drop_first(), b);
        assert(encode_utf8(a + b) =~= encode_utf8(a) + encode_utf8(b));
    }
}

/// Iterator yielding every line in a string; each line includes its
/// newline character(s).
pub struct LinesWithEndings<'a> {
    input: &'a str,
}

impl<'a> LinesWithEndings<'a> {
    /// The text not yet yielded.
    pub closed spec fn remaining(self) -> Seq<char> {
        self.input@
    }

    pub fn from(input: &'a str) -> (r: LinesWithEndings<'a>)
        ensures
            r.remaining() == input@,
    {
        LinesWithEndings { input }
    }

    /// Yield the next line: the remaining text up to and including the
    /// first newline, or all of it when none is left; `None` once empty.
    pub fn next(&mut self) -> (r: Option<&'a str>)
        ensures
            old(self).remaining().len() == 0 ==> r is None
                && final(self).remaining() == old(self).remaining(),
            old(self).remaining().len() > 0 ==> {
                &&& r is Some
                &&& r->Some_0@ == old(self).remaining().take(first_line_end(old(self).remaining()))
                &&& final(self).remaining() == old(self).remaining().skip(first_line_end(old(self).remaining()))
                &&& r->Some_0@.len() > 0
            },
    {
        if self.input.is_empty() {
            return None;
        }
        let n = self.input.unicode_len();
        let mut i: usize = 0;
        while i < n && self.input.get_char(i) != '\n'
            invariant
                n == self.input@.len(),
                0 <= i <= n,
                forall|j: int| 0 <= j < i ==> self.input@[j] != '\n',
            decreases n - i,
        {
            i = i + 1;
        }
        let split: usize = if i < n { i + 1 } else { n };
        proof {
            lemma_first_line_end_at(self.input@, i as int);
        }
        let line = self.input.substring_char(0, split);
        let rest = self.input.substring_char(split, n);
        proof {
            assert(line@ =~= self.input@.take(split as int));
            assert(rest@ =~= self.input@.skip(split as int));
        }
        self.input = rest;
        Some(line)
    }
}

} // verus!
