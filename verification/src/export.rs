//! The scope exporter: drive the tokenizer line by line, record one
//! region per non-empty text fragment (byte offset, byte length, the
//! scopes open over it) and deduplicate scope names into a stable table.
//!
//! A line's operations arrive as byte offsets into the line; the text
//! between two consecutive offsets is one fragment. An operation whose
//! fragment is empty still mutates the scope stack, only the region is
//! skipped. Regions therefore partition the snippet's bytes exactly.

use vstd::prelude::*;

use crate::engine::{
    apply_op, apply_op_of, export_start, export_start_of, parse_line, parse_line_of, scope_display,
    scope_name_of, scopes_of, stack_scopes,
};
use crate::lines::{first_line_end, lemma_encode_utf8_concat, lemma_first_line_end_bounds,
    LinesWithEndings};
use crate::scope_table::{names_unique, table_insert, ScopeNameTable};
use syntect::parsing::{ParseState, Scope, ScopeStack, ScopeStackOp, SyntaxReference, SyntaxSet};
use vstd::utf8::encode_utf8;

verus! {

/// One exported span of the snippet: `length` bytes starting at byte
/// `offset`, with the table indices of every scope enclosing it,
/// outermost first.
pub struct Region {
    pub offset: usize,
    pub length: usize,
    pub scopes: Vec<usize>,
}

/// The mathematical value of a `Region`.
pub ghost struct RegionV {
    pub offset: int,
    pub length: int,
    pub scopes: Seq<usize>,
}

impl DeepView for Region {
    type V = RegionV;

    open spec fn deep_view(&self) -> RegionV {
        RegionV { offset: self.offset as int, length: self.length as int, scopes: self.scopes@ }
    }
}

/// Export failed: the tokenizer rejected a line, an operation did not
/// apply, or an operation's offset fell outside its line.
#[derive(Debug)]
pub struct ExportError;

/// The exporter's running state: the scope stack, the name table, the
/// regions so far and the byte offset reached.
pub ghost struct ExportAcc {
    pub stack: ScopeStack,
    pub names: Seq<Seq<char>>,
    pub regions: Seq<RegionV>,
    pub offset: int,
}

/// Insert each name of `ss` into the table in order, collecting the
/// stable index of each.
pub open spec fn insert_names(names: Seq<Seq<char>>, ss: Seq<Seq<char>>) -> (Seq<Seq<char>>, Seq<
    usize,
>)
    decreases ss.len(),
{
    if ss.len() == 0 {
        (names, Seq::empty())
    } else {
        let first = table_insert(names, ss[0]);
        let rest = insert_names(first.0, ss.drop_first());
        (rest.0, seq![first.1 as usize] + rest.1)
    }
}

/// The names of a stack's open scopes, outermost first.
pub open spec fn stack_names(sk: ScopeStack) -> Seq<Seq<char>> {
    scopes_of(sk).map_values(|s: Scope| scope_name_of(s))
}

/// Record one fragment of `len` bytes: a non-empty fragment becomes a
/// region carrying the indices of the open scopes and advances the
/// offset; an empty one changes nothing.
pub open spec fn emit_region(acc: ExportAcc, len: int) -> ExportAcc {
    if len == 0 {
        acc
    } else {
        let ins = insert_names(acc.names, stack_names(acc.stack));
        ExportAcc {
            stack: acc.stack,
            names: ins.0,
            regions: acc.regions.push(
                RegionV { offset: acc.offset, length: len, scopes: ins.1 },
            ),
            offset: acc.offset + len,
        }
    }
}

/// Run one line's operations: the fragment before each operation is
/// recorded under the stack as it stands, then the operation mutates the
/// stack; the fragment after the last operation closes the line. `None`
/// on an out-of-line offset or an operation that does not apply.
pub open spec fn run_ops(
    acc: ExportAcc,
    ops: Seq<(usize, ScopeStackOp)>,
    prev: int,
    line_len: int,
) -> Option<ExportAcc>
    decreases ops.len(),
{
    if ops.len() == 0 {
        Some(emit_region(acc, line_len - prev))
    } else {
        let b = ops[0].0 as int;
        if b < prev || b > line_len {
            None
        } else {
            let acc1 = emit_region(acc, b - prev);
            let applied = apply_op_of(acc1.stack, ops[0].1);
            if !applied.1 {
                None
            } else {
                run_ops(
                    ExportAcc { stack: applied.0, ..acc1 },
                    ops.drop_first(),
                    b,
                    line_len,
                )
            }
        }
    }
}

/// Run the export over every line of `rem`.
pub open spec fn run_lines(ps: ParseState, acc: ExportAcc, rem: Seq<char>, ss: SyntaxSet) -> Option<
    (Seq<Seq<char>>, Seq<RegionV>, int),
>
    decreases rem.len(),
    via run_lines_dec
{
    if rem.len() == 0 {
        Some((acc.names, acc.regions, acc.offset))
    } else {
        let fle = first_line_end(rem);
        let line = rem.take(fle);
        let parsed = parse_line_of(ps, line, ss);
        match parsed.1 {
            None => None,
            Some(ops) => match run_ops(acc, ops, 0, encode_utf8(line).len() as int) {
                None => None,
                Some(acc2) => run_lines(parsed.0, acc2, rem.skip(fle), ss),
            },
        }
    }
}

#[via_fn]
proof fn run_lines_dec(ps: ParseState, acc: ExportAcc, rem: Seq<char>, ss: SyntaxSet) {
    lemma_first_line_end_bounds(rem);
}

/// The whole export of `code` under `syntax`: the scope-name table in
/// insertion order, the regions in offset order, and the total byte
/// count; `None` when the tokenizer fails.
pub open spec fn export_spec(code: Seq<char>, syntax: SyntaxReference, ss: SyntaxSet) -> Option<
    (Seq<Seq<char>>, Seq<RegionV>, int),
> {
    let start = export_start_of(syntax);
    run_lines(
        start.0,
        ExportAcc { stack: start.1, names: Seq::empty(), regions: Seq::empty(), offset: 0 },
        code,
        ss,
    )
}

proof fn lemma_insert_names_snoc(names: Seq<Seq<char>>, ss: Seq<Seq<char>>, x: Seq<char>)
    ensures
        insert_names(names, ss.push(x)).0 == table_insert(insert_names(names, ss).0, x).0,
        insert_names(names, ss.push(x)).1 == insert_names(names, ss).1.push(
            table_insert(insert_names(names, ss).0, x).1 as usize,
        ),
    decreases ss.len(),
{
    if ss.len() == 0 {
        assert(ss.push(x)[0] == x);
        assert(ss.push(x).drop_first() =~= Seq::<Seq<char>>::empty());
        let ins = table_insert(names, x);
        assert(insert_names(names, ss) == (names, Seq::<usize>::empty()));
        assert(insert_names(ins.0, ss.push(x).drop_first()) == (ins.0, Seq::<usize>::empty()));
        assert(insert_names(names, ss.push(x)).1 =~= Seq::<usize>::empty().push(ins.1 as usize));
    } else {
        let h = table_insert(names, ss[0]);
        assert(ss.push(x)[0] == ss[0]);
        assert(ss.push(x).drop_first() =~= ss.drop_first().push(x));
        lemma_insert_names_snoc(h.0, ss.drop_first(), x);
        let b = insert_names(h.0, ss.drop_first());
        let ins = table_insert(b.0, x);
        assert(insert_names(names, ss).0 == b.0);
        assert(insert_names(names, ss).1 == seq![h.1 as usize] + b.1);
        assert(insert_names(names, ss.push(x)).0 == ins.0);
        assert(insert_names(names, ss.push(x)).1 == seq![h.1 as usize] + b.1.push(ins.1 as usize));
        assert(seq![h.1 as usize] + b.1.push(ins.1 as usize) =~= (seq![h.1 as usize] + b.1).push(
            ins.1 as usize,
        ));
    }
}

/// Record one fragment exactly as `emit_region` says.
fn emit_exec(
    stack: &ScopeStack,
    table: &mut ScopeNameTable,
    regions: &mut Vec<Region>,
    offset: usize,
    len: usize,
) -> (new_offset: usize)
    requires
        offset + len <= usize::MAX,
    ensures
        ({
            let acc = ExportAcc {
                stack: *stack,
                names: old(table)@,
                regions: old(regions).deep_view(),
                offset: offset as int,
            };
            let acc2 = emit_region(acc, len as int);
            &&& final(table)@ == acc2.names
            &&& final(regions).deep_view() == acc2.regions
            &&& new_offset as int == acc2.offset
        }),
{
    if len == 0 {
        return offset;
    }
    let scopes = stack_scopes(stack);
    let ghost snames = stack_names(*stack);
    let mut idxs: Vec<usize> = Vec::new();
    let n = scopes.len();
    for j in 0..n
        invariant
            n == scopes.len(),
            scopes@ == scopes_of(*stack),
            snames == stack_names(*stack),
            snames.len() == n,
            (table@, idxs@) == insert_names(old(table)@, snames.take(j as int)),
    {
        proof {
            assert(snames[j as int] == scope_name_of(scopes@[j as int]));
        }
        let nm = scope_display(&scopes[j]);
        let ghost pre_names = table@;
        let ghost pre_idxs = idxs@;
        let idx = table.insert_full(nm);
        idxs.push(idx);
        proof {
            lemma_insert_names_snoc(old(table)@, snames.take(j as int), nm@);
            assert(snames.take(j as int).push(snames[j as int]) =~= snames.take(j + 1));
            assert(idxs@ =~= pre_idxs.push(idx));
        }
    }
    proof {
        assert(snames.take(n as int) =~= snames);
    }
    let ghost pre_regions = regions.deep_view();
    let region = Region { offset, length: len, scopes: idxs };
    let ghost rv = region.deep_view();
    regions.push(region);
    proof {
        assert(regions.deep_view() =~= pre_regions.push(rv));
    }
    offset + len
}

/// Export `(scope_names, regions)` for `s` tokenized under `syntax`: the
/// distinct scope names in first-encounter order, and one region per
/// non-empty fragment in snippet order, exactly as `export_spec` gives
/// them. Fails exactly when `export_spec` does: on a tokenizer fault.
pub fn scopify_string_newlines(s: &str, syntax: &SyntaxReference, ss: &SyntaxSet) -> (r: Result<
    (Vec<String>, Vec<Region>),
    ExportError,
>)
    ensures
        match export_spec(s@, *syntax, *ss) {
            Some(out) => {
                &&& r matches Ok(e)
                &&& e.0.deep_view() == out.0
                &&& e.1.deep_view() == out.1
            },
            None => r matches Err(_),
        },
{
    let ghost goal = export_spec(s@, *syntax, *ss);
    let ghost total_b = encode_utf8(s@).len() as int;
    let total = crate::engine::byte_len(s);
    let (mut state, stack0) = export_start(syntax);
    let mut stack = stack0;
    let mut table = ScopeNameTable::new();
    let mut regions: Vec<Region> = Vec::new();
    let mut offset: usize = 0;
    let mut iter = LinesWithEndings::from(s);
    proof {
        assert(regions.deep_view() =~= Seq::<RegionV>::empty());
        assert(table@ =~= Seq::<Seq<char>>::empty());
    }
    loop
        invariant
            total as int == total_b,
            offset as int + encode_utf8(iter.remaining()).len() == total_b,
            goal == run_lines(
                state,
                ExportAcc {
                    stack: stack,
                    names: table@,
                    regions: regions.deep_view(),
                    offset: offset as int,
                },
                iter.remaining(),
                *ss,
            ),
            goal == export_spec(s@, *syntax, *ss),
        ensures
            iter.remaining().len() == 0,
            goal == run_lines(
                state,
                ExportAcc {
                    stack: stack,
                    names: table@,
                    regions: regions.deep_view(),
                    offset: offset as int,
                },
                iter.remaining(),
                *ss,
            ),
        decreases iter.remaining().len(),
    {
        let ghost rem0 = iter.remaining();
        let ghost state0 = state;
        let line = match iter.next() {
            None => {
                break ;
            },
            Some(l) => l,
        };
        let ghost fle = first_line_end(rem0);
        proof {
            lemma_first_line_end_bounds(rem0);
            assert(rem0.take(fle) + rem0.skip(fle) =~= rem0);
            lemma_encode_utf8_concat(rem0.take(fle), rem0.skip(fle));
        }
        let line_len = crate::engine::byte_len(line);
        let ghost ll = encode_utf8(line@).len() as int;
        let ghost acc_entry = ExportAcc {
            stack: stack,
            names: table@,
            regions: regions.deep_view(),
            offset: offset as int,
        };
        proof {
            assert(goal == run_lines(state0, acc_entry, rem0, *ss));
            assert(line@ == rem0.take(fle));
        }
        let ops = match parse_line(&mut state, line, ss) {
            None => {
                proof {
                    assert(parse_line_of(state0, line@, *ss).1 is None);
                    assert(goal is None);
                }
                return Err(ExportError);
            },
            Some(v) => v,
        };
        proof {
            assert(parse_line_of(state0, line@, *ss).1 == Some(ops@));
            assert(state == parse_line_of(state0, line@, *ss).0);
            assert(ops@.skip(0) =~= ops@);
        }
        let ghost line_start = offset as int;
        let m = ops.len();
        let mut prev: usize = 0;
        for i in 0..m
            invariant
                m == ops.len(),
                prev as int <= ll,
                offset as int == line_start + prev,
                line_start + ll <= total_b,
                total as int == total_b,
                line_len as int == ll,
                goal == export_spec(s@, *syntax, *ss),
                goal == match run_ops(
                    ExportAcc {
                        stack: stack,
                        names: table@,
                        regions: regions.deep_view(),
                        offset: offset as int,
                    },
                    ops@.skip(i as int),
                    prev as int,
                    ll,
                ) {
                    None => None,
                    Some(a2) => run_lines(state, a2, rem0.skip(fle), *ss),
                },
        {
            let ghost acc_i = ExportAcc {
                stack: stack,
                names: table@,
                regions: regions.deep_view(),
                offset: offset as int,
            };
            proof {
                assert(ops@.skip(i as int)[0] == ops@[i as int]);
                assert(ops@.skip(i as int).drop_first() =~= ops@.skip(i + 1));
            }
            let pair = &ops[i];
            let b = pair.0;
            if b < prev || b > line_len {
                proof {
                    assert(run_ops(acc_i, ops@.skip(i as int), prev as int, ll) is None);
                    assert(goal is None);
                }
                return Err(ExportError);
            }
            offset = emit_exec(&stack, &mut table, &mut regions, offset, b - prev);
            let ghost acc_1 = emit_region(acc_i, b - prev);
            proof {
                assert(acc_1.stack == stack);
                assert(table@ == acc_1.names);
                assert(regions.deep_view() == acc_1.regions);
                assert(offset as int == acc_1.offset);
            }
            let ok = apply_op(&mut stack, &pair.1);
            proof {
                assert((stack, ok) == apply_op_of(acc_1.stack, ops@[i as int].1));
            }
            if !ok {
                proof {
                    assert(run_ops(acc_i, ops@.skip(i as int), prev as int, ll) is None);
                    assert(goal is None);
                }
                return Err(ExportError);
            }
            proof {
                assert(run_ops(acc_i, ops@.skip(i as int), prev as int, ll) == run_ops(
                    ExportAcc {
                        stack: stack,
                        names: table@,
                        regions: regions.deep_view(),
                        offset: offset as int,
                    },
                    ops@.skip(i + 1),
                    b as int,
                    ll,
                ));
            }
            prev = b;
        }
        proof {
            assert(ops@.skip(m as int) =~= Seq::<(usize, ScopeStackOp)>::empty());
        }
        offset = emit_exec(&stack, &mut table, &mut regions, offset, line_len - prev);
    }
    proof {
        assert(goal == Some((table@, regions.deep_view(), offset as int)));
    }
    Ok((table.into_names(), regions))
}

/// Byte position where the regions end: 0 for none, else the end of the
/// last region.
pub open spec fn end_of(regions: Seq<RegionV>) -> int {
    if regions.len() == 0 {
        0
    } else {
        regions.last().offset + regions.last().length
    }
}

/// The sum of the regions' byte lengths.
pub open spec fn sum_lengths(regions: Seq<RegionV>) -> int
    decreases regions.len(),
{
    if regions.len() == 0 {
        0
    } else {
        regions[0].length + sum_lengths(regions.drop_first())
    }
}

/// Regions are non-empty, start at byte 0, and are contiguous: each
/// begins exactly where the previous one ends.
pub open spec fn regions_chain(regions: Seq<RegionV>) -> bool {
    &&& (forall|i: int| 0 <= i < regions.len() ==> (#[trigger] regions[i]).length > 0)
    &&& (forall|i: int|
        1 <= i < regions.len() ==> (#[trigger] regions[i]).offset == regions[i - 1].offset
            + regions[i - 1].length)
    &&& (regions.len() > 0 ==> regions[0].offset == 0)
}

/// Every scope index of every region points into the name table.
pub open spec fn regions_wf(regions: Seq<RegionV>, names: Seq<Seq<char>>) -> bool {
    forall|i: int, j: int|
        0 <= i < regions.len() && 0 <= j < regions[i].scopes.len() ==> (#[trigger] regions[
            i
        ].scopes[j]) < names.len()
}

spec fn acc_wf(acc: ExportAcc) -> bool {
    &&& regions_chain(acc.regions)
    &&& end_of(acc.regions) == acc.offset
    &&& regions_wf(acc.regions, acc.names)
    &&& names_unique(acc.names)
    &&& acc.offset >= 0
}

proof fn lemma_insert_names_props(names: Seq<Seq<char>>, ss: Seq<Seq<char>>)
    ensures
        names.is_prefix_of(insert_names(names, ss).0),
        names_unique(names) ==> names_unique(insert_names(names, ss).0),
        forall|k: int|
            0 <= k < insert_names(names, ss).1.len() ==> (#[trigger] insert_names(
                names,
                ss,
            ).1[k]) < insert_names(names, ss).0.len(),
    decreases ss.len(),
{
    if ss.len() == 0 {
        assert(names.is_prefix_of(names));
    } else {
        let h = table_insert(names, ss[0]);
        crate::scope_table::lemma_table_insert_props(names, ss[0]);
        if names_unique(names) {
            crate::scope_table::lemma_table_insert_unique(names, ss[0]);
        }
        lemma_insert_names_props(h.0, ss.drop_first());
        let rest = insert_names(h.0, ss.drop_first());
        assert(names =~= rest.0.subrange(0, names.len() as int));
        assert forall|k: int| 0 <= k < insert_names(names, ss).1.len() implies (
        #[trigger] insert_names(names, ss).1[k]) < insert_names(names, ss).0.len() by {
            if k == 0 {
                assert(insert_names(names, ss).1[0] == h.1 as usize);
            } else {
                assert(insert_names(names, ss).1[k] == rest.1[k - 1]);
            }
        }
    }
}

proof fn lemma_emit_props(acc: ExportAcc, len: int)
    requires
        acc_wf(acc),
        len >= 0,
    ensures
        acc_wf(emit_region(acc, len)),
        emit_region(acc, len).offset == acc.offset + len,
        acc.names.is_prefix_of(emit_region(acc, len).names),
        emit_region(acc, len).stack == acc.stack,
    decreases len,
{
    if len == 0 {
        assert(acc.names.is_prefix_of(acc.names));
    } else {
        let ins = insert_names(acc.names, stack_names(acc.stack));
        lemma_insert_names_props(acc.names, stack_names(acc.stack));
        let rv = RegionV { offset: acc.offset, length: len, scopes: ins.1 };
        let rs = acc.regions.push(rv);
        assert forall|i: int| 0 <= i < rs.len() implies (#[trigger] rs[i]).length > 0 by {
            if i < acc.regions.len() {
                assert(rs[i] == acc.regions[i]);
            }
        }
        assert forall|i: int| 1 <= i < rs.len() implies (#[trigger] rs[i]).offset == rs[i
            - 1].offset + rs[i - 1].length by {
            if i < acc.regions.len() {
                assert(rs[i] == acc.regions[i]);
                assert(rs[i - 1] == acc.regions[i - 1]);
            } else {
                if acc.regions.len() > 0 {
                    assert(rs[i - 1] == acc.regions[i - 1]);
                    assert(rs[i] == rv);
                }
            }
        }
        assert forall|i: int, j: int|
            0 <= i < rs.len() && 0 <= j < rs[i].scopes.len() implies (#[trigger] rs[i].scopes[j])
            < ins.0.len() by {
            if i < acc.regions.len() {
                assert(rs[i] == acc.regions[i]);
                assert(acc.regions[i].scopes[j] < acc.names.len());
                assert(acc.names.len() <= ins.0.len());
            } else {
                assert(rs[i] == rv);
            }
        }
    }
}

proof fn lemma_run_ops_wf(acc: ExportAcc, ops: Seq<(usize, ScopeStackOp)>, prev: int, line_len: int)
    requires
        acc_wf(acc),
        0 <= prev <= line_len,
    ensures
        match run_ops(acc, ops, prev, line_len) {
            Some(a2) => acc_wf(a2) && a2.offset == acc.offset + (line_len - prev)
                && acc.names.is_prefix_of(a2.names),
            None => true,
        },
    decreases ops.len(),
{
    if ops.len() == 0 {
        lemma_emit_props(acc, line_len - prev);
    } else {
        let b = ops[0].0 as int;
        if prev <= b <= line_len {
            lemma_emit_props(acc, b - prev);
            let acc1 = emit_region(acc, b - prev);
            let applied = apply_op_of(acc1.stack, ops[0].1);
            if applied.1 {
                let acc_n = ExportAcc { stack: applied.0, ..acc1 };
                lemma_run_ops_wf(acc_n, ops.drop_first(), b, line_len);
                match run_ops(acc_n, ops.drop_first(), b, line_len) {
                    Some(a2) => {
                        assert(acc.names =~= a2.names.subrange(0, acc.names.len() as int));
                    },
                    None => {},
                }
            }
        }
    }
}

proof fn lemma_run_lines_wf(ps: ParseState, acc: ExportAcc, rem: Seq<char>, ss: SyntaxSet)
    requires
        acc_wf(acc),
    ensures
        match run_lines(ps, acc, rem, ss) {
            Some(out) => regions_chain(out.1) && end_of(out.1) == out.2 && regions_wf(out.1, out.0)
                && names_unique(out.0) && out.2 == acc.offset + encode_utf8(rem).len(),
            None => true,
        },
    decreases rem.len(),
{
    if rem.len() == 0 {
        assert(encode_utf8(rem) =~= Seq::<u8>::empty());
    } else {
        lemma_first_line_end_bounds(rem);
        let fle = first_line_end(rem);
        let line = rem.take(fle);
        assert(rem.take(fle) + rem.skip(fle) =~= rem);
        lemma_encode_utf8_concat(rem.take(fle), rem.skip(fle));
        let parsed = parse_line_of(ps, line, ss);
        match parsed.1 {
            None => {},
            Some(ops) => {
                let ll = encode_utf8(line).len() as int;
                lemma_run_ops_wf(acc, ops, 0, ll);
                match run_ops(acc, ops, 0, ll) {
                    None => {},
                    Some(acc2) => {
                        lemma_run_lines_wf(parsed.0, acc2, rem.skip(fle), ss);
                    },
                }
            },
        }
    }
}

proof fn lemma_chain_sum(regions: Seq<RegionV>)
    requires
        forall|i: int|
            1 <= i < regions.len() ==> (#[trigger] regions[i]).offset == regions[i - 1].offset
                + regions[i - 1].length,
    ensures
        sum_lengths(regions) == end_of(regions) - if regions.len() == 0 {
            0int
        } else {
            regions[0].offset
        },
    decreases regions.len(),
{
    if regions.len() > 0 {
        let rest = regions.drop_first();
        assert forall|i: int| 1 <= i < rest.len() implies (#[trigger] rest[i]).offset == rest[i
            - 1].offset + rest[i - 1].length by {
            assert(rest[i] == regions[i + 1]);
            assert(rest[i - 1] == regions[i]);
        }
        lemma_chain_sum(rest);
        if regions.len() > 1 {
            assert(rest[0] == regions[1]);
            assert(rest.last() == regions.last());
        }
    }
}

/// Law: export partition and table well-formedness. The regions of a
/// successful export are each non-empty, start at byte 0, are contiguous
/// without gap or overlap, and their lengths sum exactly to the snippet's
/// byte length; every region's scope indices point into the scope-name
/// table; and the table holds no duplicate name (so a name always stands
/// at the one index it received at first encounter).
pub proof fn lemma_export_partition(code: Seq<char>, syntax: SyntaxReference, ss: SyntaxSet)
    ensures
        match export_spec(code, syntax, ss) {
            Some(out) => {
                &&& regions_chain(out.1)
                &&& end_of(out.1) == encode_utf8(code).len()
                &&& sum_lengths(out.1) == encode_utf8(code).len()
                &&& regions_wf(out.1, out.0)
                &&& names_unique(out.0)
            },
            None => true,
        },
{
    let start = export_start_of(syntax);
    let acc0 = ExportAcc {
        stack: start.1,
        names: Seq::empty(),
        regions: Seq::empty(),
        offset: 0,
    };
    lemma_run_lines_wf(start.0, acc0, code, ss);
    match export_spec(code, syntax, ss) {
        Some(out) => {
            lemma_chain_sum(out.1);
        },
        None => {},
    }
}

/// Law: export determinism. Two exports of the same snippet under the
/// same grammar and catalog are identical: same offsets, same lengths,
/// same scope-name insertion order.
pub proof fn lemma_export_determinism(
    code: Seq<char>,
    syntax: SyntaxReference,
    ss: SyntaxSet,
    r1: Option<(Seq<Seq<char>>, Seq<RegionV>, int)>,
    r2: Option<(Seq<Seq<char>>, Seq<RegionV>, int)>,
)
    requires
        r1 == export_spec(code, syntax, ss),
        r2 == export_spec(code, syntax, ss),
    ensures
        r1 == r2,
{
}

} // verus!
