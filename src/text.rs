//! Text normalization: per-line whitespace collapsing, bounded blank-line
//! runs, trimming, and optional folding of single newlines.
//!
//! The normalized form of a text is described by its words (maximal runs of
//! non-whitespace characters) and, between two neighbouring words, the number
//! of newlines that separate them: none gives one space, one gives a newline,
//! two or more give a blank line (`"\n\n"`). When single newlines are folded,
//! a lone newline becomes a space too.
use vstd::prelude::*;

use crate::chars::{chars_of, is_ws, is_ws_char, push_chars, string_of};

verus! {

/// What separates two neighbouring words in the normalized text.
pub open spec fn gap_text(newlines: nat, fold_single: bool) -> Seq<char> {
    if newlines >= 2 {
        seq!['\n', '\n']
    } else if newlines == 1 && !fold_single {
        seq!['\n']
    } else {
        seq![' ']
    }
}

/// State of a left-to-right reading of the text: the output so far, whether a
/// word has been seen, whether whitespace follows the last word, and the
/// number of newlines in that whitespace (counted up to two).
pub struct NormState {
    pub out: Seq<char>,
    pub started: bool,
    pub in_gap: bool,
    pub newlines: nat,
}

pub open spec fn norm_init() -> NormState {
    NormState { out: Seq::empty(), started: false, in_gap: false, newlines: 0 }
}

pub open spec fn norm_step(st: NormState, c: char, fold_single: bool) -> NormState {
    if is_ws(c) {
        NormState {
            in_gap: true,
            newlines: if c == '\n' && st.newlines < 2 { st.newlines + 1 } else { st.newlines },
            ..st
        }
    } else {
        NormState {
            out: if st.started && st.in_gap {
                st.out + gap_text(st.newlines, fold_single) + seq![c]
            } else {
                st.out.push(c)
            },
            started: true,
            in_gap: false,
            newlines: 0,
        }
    }
}

pub open spec fn norm_from(st: NormState, s: Seq<char>, fold_single: bool) -> NormState
    decreases s.len(),
{
    if s.len() == 0 {
        st
    } else {
        norm_step(norm_from(st, s.drop_last(), fold_single), s.last(), fold_single)
    }
}

/// The normalized form of `s`.
pub open spec fn normalized(s: Seq<char>, fold_single: bool) -> Seq<char> {
    norm_from(norm_init(), s, fold_single).out
}

proof fn lemma_norm_from_concat(st: NormState, a: Seq<char>, b: Seq<char>, f: bool)
    ensures
        norm_from(st, a + b, f) == norm_from(norm_from(st, a, f), b, f),
    decreases b.len(),
{
    if b.len() == 0 {
        assert(a + b == a);
    } else {
        assert((a + b).drop_last() == a + b.drop_last());
        assert((a + b).last() == b.last());
        lemma_norm_from_concat(st, a, b.drop_last(), f);
    }
}

proof fn lemma_norm_gap(st: NormState, f: bool, n: nat)
    requires
        !st.in_gap,
        st.newlines == 0,
        n <= 2,
    ensures
        ({
            let r = norm_from(st, gap_text(n, f), f);
            &&& r.out == st.out
            &&& r.started == st.started
            &&& r.in_gap
            &&& gap_text(r.newlines, f) == gap_text(n, f)
        }),
{
    let g = gap_text(n, f);
    assert(norm_from(st, Seq::<char>::empty(), f) == st);
    if g.len() == 1 {
        assert(g.drop_last() =~= Seq::<char>::empty());
        assert(norm_from(st, g, f) == norm_step(st, g[0], f));
    } else {
        assert(g.drop_last() =~= seq!['\n']);
        assert(g.drop_last().drop_last() =~= Seq::<char>::empty());
        let s1 = norm_step(st, '\n', f);
        assert(norm_from(st, seq!['\n'], f) == s1);
        assert(norm_from(st, g, f) == norm_step(s1, '\n', f));
    }
}

/// Reading the output of a reading again reproduces it: the state reached
/// holds the same output, no pending gap, and is started exactly when the
/// original was.
proof fn lemma_norm_reread(s: Seq<char>, f: bool)
    ensures
        ({
            let st = norm_from(norm_init(), s, f);
            norm_from(norm_init(), st.out, f) == NormState {
                out: st.out,
                started: st.started,
                in_gap: false,
                newlines: 0,
            }
        }),
        norm_from(norm_init(), s, f).newlines <= 2,
        !norm_from(norm_init(), s, f).started ==> norm_from(norm_init(), s, f).out.len() == 0,
    decreases s.len(),
{
    if s.len() > 0 {
        let prev = norm_from(norm_init(), s.drop_last(), f);
        lemma_norm_reread(s.drop_last(), f);
        let c = s.last();
        assert(norm_from(norm_init(), Seq::<char>::empty(), f) == norm_init());
        if !is_ws(c) {
            let r0 = norm_from(norm_init(), prev.out, f);
            if prev.started && prev.in_gap {
                let g = gap_text(prev.newlines, f);
                lemma_norm_from_concat(norm_init(), prev.out, g, f);
                lemma_norm_from_concat(norm_init(), prev.out + g, seq![c], f);
                lemma_norm_gap(r0, f, prev.newlines);
                assert(seq![c].drop_last() =~= Seq::<char>::empty());
                let r1 = norm_from(norm_init(), prev.out + g, f);
                assert(norm_from(r1, Seq::<char>::empty(), f) == r1);
                assert(seq![c].last() == c);
                assert(norm_from(r1, seq![c], f) == norm_step(r1, c, f));
            } else {
                lemma_norm_from_concat(norm_init(), prev.out, seq![c], f);
                assert(seq![c].drop_last() =~= Seq::<char>::empty());
                assert(norm_from(r0, Seq::<char>::empty(), f) == r0);
                assert(seq![c].last() == c);
                assert(norm_from(r0, seq![c], f) == norm_step(r0, c, f));
                assert(prev.out + seq![c] == prev.out.push(c));
                if !prev.started {
                    assert(prev.out =~= Seq::<char>::empty());
                }
            }
        }
    }
}

/// Normalizing is idempotent: a normalized text is its own normalized form,
/// with or without folding of single newlines.
pub proof fn lemma_normalize_idempotent(s: Seq<char>, fold_single: bool)
    ensures
        normalized(normalized(s, fold_single), fold_single) == normalized(s, fold_single),
{
    lemma_norm_reread(s, fold_single);
}

/// Cleans raw text: collapses whitespace within each line, keeps at most one
/// blank line between paragraphs, trims the ends, and when
/// `replace_single_newlines` holds, turns each newline that is not part of a
/// paragraph break into a space.
pub fn clean_text(input: &str, replace_single_newlines: bool) -> (r: String)
    ensures
        r@ == normalized(input@, replace_single_newlines),
        r@.len() <= input@.len(),
{
    let v = chars_of(input);
    let mut out: Vec<char> = Vec::new();
    let mut started = false;
    let mut in_gap = false;
    let mut newlines: usize = 0;
    let mut i: usize = 0;
    while i < v.len()
        invariant
            v@ == input@,
            i <= v@.len(),
            norm_from(norm_init(), v@.subrange(0, i as int), replace_single_newlines)
                == (NormState { out: out@, started, in_gap, newlines: newlines as nat }),
            newlines <= 2,
            out@.len() + (if started && in_gap { if newlines >= 2 { 2int } else { 1int } } else { 0int }) <= i,
        decreases v@.len() - i,
    {
        let c = v[i];
        let ghost before = NormState { out: out@, started, in_gap, newlines: newlines as nat };
        proof {
            assert(v@.subrange(0, i + 1).drop_last() == v@.subrange(0, i as int));
        }
        if is_ws_char(c) {
            in_gap = true;
            if c == '\n' && newlines < 2 {
                newlines = newlines + 1;
            }
        } else {
            if started && in_gap {
                if newlines >= 2 {
                    out.push('\n');
                    out.push('\n');
                } else if newlines == 1 && !replace_single_newlines {
                    out.push('\n');
                } else {
                    out.push(' ');
                }
            }
            out.push(c);
            started = true;
            in_gap = false;
            newlines = 0;
        }
        i += 1;
        proof {
            assert(v@.subrange(0, i as int).last() == c);
            let after = norm_step(before, c, replace_single_newlines);
            assert(out@ =~= after.out);
        }
    }
    proof {
        assert(v@.subrange(0, v@.len() as int) == v@);
    }
    string_of(&out)
}

/// State of a reading for [`collapse_whitespace`]: the output so far, whether
/// a non-whitespace character has been seen, and the separator owed before the
/// next one (a space for each run of non-newline whitespace, each newline kept).
pub struct CollapseState {
    pub out: Seq<char>,
    pub started: bool,
    pub pending: Seq<char>,
}

pub open spec fn collapse_step(st: CollapseState, c: char) -> CollapseState {
    if !is_ws(c) {
        CollapseState { out: st.out + st.pending.push(c), started: true, pending: Seq::empty() }
    } else if !st.started {
        st
    } else if c == '\n' {
        CollapseState { pending: st.pending.push('\n'), ..st }
    } else if st.pending.len() > 0 && st.pending.last() == ' ' {
        st
    } else {
        CollapseState { pending: st.pending.push(' '), ..st }
    }
}

pub open spec fn collapse_from(s: Seq<char>) -> CollapseState
    decreases s.len(),
{
    if s.len() == 0 {
        CollapseState { out: Seq::empty(), started: false, pending: Seq::empty() }
    } else {
        collapse_step(collapse_from(s.drop_last()), s.last())
    }
}

/// `s` trimmed, with each run of whitespace other than newlines replaced by
/// one space; newlines inside the text are kept.
pub open spec fn collapsed(s: Seq<char>) -> Seq<char> {
    collapse_from(s).out
}

/// Trims `input` and collapses each run of non-newline whitespace to a single
/// space.
pub fn collapse_whitespace(input: &str) -> (r: String)
    ensures
        r@ == collapsed(input@),
{
    let v = chars_of(input);
    let mut out: Vec<char> = Vec::new();
    let mut started = false;
    let mut pending: Vec<char> = Vec::new();
    let mut i: usize = 0;
    while i < v.len()
        invariant
            v@ == input@,
            i <= v@.len(),
            collapse_from(v@.subrange(0, i as int)) == (CollapseState {
                out: out@,
                started,
                pending: pending@,
            }),
        decreases v@.len() - i,
    {
        let c = v[i];
        let ghost before = CollapseState { out: out@, started, pending: pending@ };
        proof {
            assert(v@.subrange(0, i + 1).drop_last() == v@.subrange(0, i as int));
        }
        if !is_ws_char(c) {
            pending.push(c);
            push_chars(&mut out, &pending);
            pending = Vec::new();
            started = true;
        } else if !started {
        } else if c == '\n' {
            pending.push('\n');
        } else if pending.len() > 0 && pending[pending.len() - 1] == ' ' {
        } else {
            pending.push(' ');
        }
        i += 1;
        proof {
            assert(v@.subrange(0, i as int).last() == c);
            let after = collapse_step(before, c);
            assert(pending@ =~= after.pending);
        }
    }
    proof {
        assert(v@.subrange(0, v@.len() as int) == v@);
    }
    string_of(&out)
}

} // verus!
