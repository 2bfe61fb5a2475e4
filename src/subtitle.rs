//! Subtitle synthesis: cutting cleaned text into sentence or word-group
//! chunks, laying them out back to back in time from an assumed speaking rate,
//! and writing them as SRT.
use vstd::prelude::*;

use crate::chars::{chars_of, copy_range, push_str, is_ws, is_ws_char, push_chars, string_of, trim, trim_chars, lemma_trim_nonempty};
use crate::queue::SubtitleGranularity;

verus! {

/// One caption: its 1-based number, its time span in milliseconds, and its text.
#[derive(Debug, Clone, PartialEq)]
pub struct SubtitleEntry {
    pub index: usize,
    pub start_ms: u64,
    pub end_ms: u64,
    pub text: String,
}

pub open spec fn views(s: Seq<Vec<char>>) -> Seq<Seq<char>> {
    s.map_values(|v: Vec<char>| v@)
}

// ---------------------------------------------------------------- words

/// Words read so far, and the word being read.
pub struct WordScan {
    pub done: Seq<Seq<char>>,
    pub cur: Seq<char>,
}

pub open spec fn word_step(st: WordScan, c: char) -> WordScan {
    if is_ws(c) {
        if st.cur.len() > 0 {
            WordScan { done: st.done.push(st.cur), cur: Seq::empty() }
        } else {
            st
        }
    } else {
        WordScan { cur: st.cur.push(c), ..st }
    }
}

pub open spec fn word_scan(s: Seq<char>) -> WordScan
    decreases s.len(),
{
    if s.len() == 0 {
        WordScan { done: Seq::empty(), cur: Seq::empty() }
    } else {
        word_step(word_scan(s.drop_last()), s.last())
    }
}

/// The words of `s`: its maximal runs of non-whitespace characters, in order,
/// as `str::split_whitespace` yields them.
pub open spec fn words(s: Seq<char>) -> Seq<Seq<char>> {
    let st = word_scan(s);
    if st.cur.len() > 0 {
        st.done.push(st.cur)
    } else {
        st.done
    }
}

fn words_of(v: &Vec<char>) -> (r: Vec<Vec<char>>)
    ensures
        views(r@) == words(v@),
        r@.len() <= v@.len(),
{
    let mut done: Vec<Vec<char>> = Vec::new();
    let mut cur: Vec<char> = Vec::new();
    let mut i: usize = 0;
    proof {
        assert(views(done@) =~= Seq::<Seq<char>>::empty());
    }
    while i < v.len()
        invariant
            i <= v@.len(),
            word_scan(v@.subrange(0, i as int)) == (WordScan { done: views(done@), cur: cur@ }),
            done@.len() + (if cur@.len() > 0 { 1int } else { 0 }) <= i,
        decreases v@.len() - i,
    {
        let c = v[i];
        let ghost before = WordScan { done: views(done@), cur: cur@ };
        proof {
            assert(v@.subrange(0, i + 1).drop_last() == v@.subrange(0, i as int));
        }
        if is_ws_char(c) {
            if cur.len() > 0 {
                done.push(cur);
                cur = Vec::new();
            }
        } else {
            cur.push(c);
        }
        i += 1;
        proof {
            assert(v@.subrange(0, i as int).last() == c);
            let after = word_step(before, c);
            assert(views(done@) =~= after.done);
        }
    }
    proof {
        assert(v@.subrange(0, v@.len() as int) == v@);
    }
    if cur.len() > 0 {
        done.push(cur);
    }
    proof {
        assert(views(done@) =~= words(v@));
    }
    done
}

// ---------------------------------------------------------------- sentences

pub open spec fn is_terminator(c: char) -> bool {
    c == '.' || c == '!' || c == '?'
}

/// Sentences read so far, and the text of the sentence being read.
pub struct SentenceScan {
    pub done: Seq<Seq<char>>,
    pub cur: Seq<char>,
}

pub open spec fn sentence_step(st: SentenceScan, c: char) -> SentenceScan {
    if is_terminator(c) {
        if st.cur.len() > 0 {
            SentenceScan { done: st.done.push(trim(st.cur.push(c))), cur: Seq::empty() }
        } else {
            st
        }
    } else {
        SentenceScan { cur: st.cur.push(c), ..st }
    }
}

pub open spec fn sentence_scan(s: Seq<char>) -> SentenceScan
    decreases s.len(),
{
    if s.len() == 0 {
        SentenceScan { done: Seq::empty(), cur: Seq::empty() }
    } else {
        sentence_step(sentence_scan(s.drop_last()), s.last())
    }
}

/// The sentences of `s`: each maximal run of characters other than `.`, `!`
/// and `?`, with the one terminator that follows it, trimmed; empty results
/// are dropped, and a terminator that follows another terminator is skipped.
pub open spec fn sentences(s: Seq<char>) -> Seq<Seq<char>> {
    let st = sentence_scan(s);
    if trim(st.cur).len() > 0 {
        st.done.push(trim(st.cur))
    } else {
        st.done
    }
}

/// Total length of the given texts.
pub open spec fn total_len(s: Seq<Seq<char>>) -> nat
    decreases s.len(),
{
    if s.len() == 0 {
        0
    } else {
        total_len(s.drop_last()) + s.last().len()
    }
}

fn sentences_of(v: &Vec<char>) -> (r: Vec<Vec<char>>)
    ensures
        views(r@) == sentences(v@),
        r@.len() <= v@.len(),
        total_len(views(r@)) <= v@.len(),
        forall|k: int| 0 <= k < r@.len() ==> #[trigger] r@[k]@.len() > 0,
{
    let mut done: Vec<Vec<char>> = Vec::new();
    let mut cur: Vec<char> = Vec::new();
    let mut i: usize = 0;
    proof {
        assert(views(done@) =~= Seq::<Seq<char>>::empty());
    }
    while i < v.len()
        invariant
            i <= v@.len(),
            sentence_scan(v@.subrange(0, i as int)) == (SentenceScan {
                done: views(done@),
                cur: cur@,
            }),
            done@.len() + cur@.len() <= i,
            total_len(views(done@)) + cur@.len() <= i,
            forall|k: int| 0 <= k < done@.len() ==> #[trigger] done@[k]@.len() > 0,
        decreases v@.len() - i,
    {
        let c = v[i];
        let ghost before = SentenceScan { done: views(done@), cur: cur@ };
        proof {
            assert(v@.subrange(0, i + 1).drop_last() == v@.subrange(0, i as int));
        }
        if c == '.' || c == '!' || c == '?' {
            if cur.len() > 0 {
                cur.push(c);
                let t = trim_chars(&cur);
                proof {
                    assert(!is_ws(cur@.last()));
                    lemma_trim_nonempty(cur@);
                }
                done.push(t);
                cur = Vec::new();
                proof {
                    assert(views(done@).drop_last() =~= before.done);
                    assert(views(done@).last() == t@);
                }
            }
        } else {
            cur.push(c);
        }
        i += 1;
        proof {
            assert(v@.subrange(0, i as int).last() == c);
            let after = sentence_step(before, c);
            assert(views(done@) =~= after.done);
        }
    }
    proof {
        assert(v@.subrange(0, v@.len() as int) == v@);
    }
    let t = trim_chars(&cur);
    if t.len() > 0 {
        let ghost before = views(done@);
        done.push(t);
        proof {
            assert(views(done@).drop_last() =~= before);
            assert(views(done@).last() == t@);
            assert(total_len(views(done@)) == total_len(before) + t@.len());
        }
    }
    proof {
        assert(views(done@) =~= sentences(v@));
    }
    done
}

// ---------------------------------------------------------------- word groups

/// `parts` joined with single spaces.
pub open spec fn join_space(parts: Seq<Seq<char>>) -> Seq<char>
    decreases parts.len(),
{
    if parts.len() == 0 {
        Seq::empty()
    } else if parts.len() == 1 {
        parts[0]
    } else {
        join_space(parts.drop_last()) + seq![' '] + parts.last()
    }
}

/// `ws` cut into consecutive groups of `n` words; the last group may be shorter.
pub open spec fn word_groups(ws: Seq<Seq<char>>, n: nat) -> Seq<Seq<Seq<char>>>
    decreases ws.len(),
{
    if ws.len() == 0 || n == 0 {
        Seq::empty()
    } else if ws.len() <= n {
        seq![ws]
    } else {
        seq![ws.take(n as int)] + word_groups(ws.skip(n as int), n)
    }
}

/// Sum of the given counts.
pub open spec fn sum_counts(c: Seq<nat>) -> nat
    decreases c.len(),
{
    if c.len() == 0 {
        0
    } else {
        sum_counts(c.drop_last()) + c.last()
    }
}

proof fn lemma_flatten_groups(ws: Seq<Seq<char>>, n: nat)
    requires
        n >= 1,
    ensures
        word_groups(ws, n).flatten() == ws,
    decreases ws.len(),
{
    if ws.len() == 0 {
    } else if ws.len() <= n {
        assert(seq![ws].drop_first() =~= Seq::<Seq<Seq<char>>>::empty());
        assert(seq![ws].flatten() == ws + Seq::<Seq<Seq<char>>>::empty().flatten());
        assert(ws + Seq::<Seq<char>>::empty() == ws);
    } else {
        let rest = word_groups(ws.skip(n as int), n);
        lemma_flatten_groups(ws.skip(n as int), n);
        assert((seq![ws.take(n as int)] + rest).drop_first() == rest);
        assert(ws.take(n as int) + ws.skip(n as int) == ws);
    }
}

proof fn lemma_join_concat(a: Seq<Seq<char>>, b: Seq<Seq<char>>)
    requires
        a.len() > 0,
        b.len() > 0,
    ensures
        join_space(a + b) == join_space(a) + seq![' '] + join_space(b),
    decreases b.len(),
{
    if b.len() == 1 {
        assert((a + b).drop_last() == a);
        assert((a + b).last() == b[0]);
    } else {
        lemma_join_concat(a, b.drop_last());
        assert((a + b).drop_last() == a + b.drop_last());
        assert((a + b).last() == b.last());
    }
}

proof fn lemma_join_groups(gs: Seq<Seq<Seq<char>>>)
    requires
        forall|k: int| 0 <= k < gs.len() ==> (#[trigger] gs[k]).len() > 0,
    ensures
        join_space(gs.map_values(|g: Seq<Seq<char>>| join_space(g))) == join_space(gs.flatten()),
        gs.len() > 0 ==> gs.flatten().len() > 0,
    decreases gs.len(),
{
    if gs.len() > 0 {
        let rest = gs.drop_first();
        lemma_join_groups(rest);
        let m = gs.map_values(|g: Seq<Seq<char>>| join_space(g));
        let mr = rest.map_values(|g: Seq<Seq<char>>| join_space(g));
        assert(m == seq![join_space(gs[0])] + mr);
        assert(gs.flatten() == gs[0] + rest.flatten());
        if rest.len() > 0 {
            lemma_join_concat(seq![join_space(gs[0])], mr);
            lemma_join_concat(gs[0], rest.flatten());
            assert(join_space(seq![join_space(gs[0])]) == join_space(gs[0]));
        } else {
            assert(mr.len() == 0);
            assert(m == seq![join_space(gs[0])]);
            assert(rest.flatten() =~= Seq::<Seq<char>>::empty());
            assert(gs[0] + rest.flatten() == gs[0]);
        }
    }
}

/// A word: non-empty and free of whitespace.
pub open spec fn is_word(w: Seq<char>) -> bool {
    w.len() > 0 && forall|i: int| 0 <= i < w.len() ==> !is_ws(#[trigger] w[i])
}

proof fn lemma_scan_words_valid(s: Seq<char>)
    ensures
        forall|k: int| 0 <= k < word_scan(s).done.len() ==> is_word(#[trigger] word_scan(s).done[k]),
        forall|i: int| 0 <= i < word_scan(s).cur.len() ==> !is_ws(#[trigger] word_scan(s).cur[i]),
        forall|k: int| 0 <= k < words(s).len() ==> is_word(#[trigger] words(s)[k]),
    decreases s.len(),
{
    let st = word_scan(s);
    if s.len() > 0 {
        lemma_scan_words_valid(s.drop_last());
        let prev = word_scan(s.drop_last());
        let c = s.last();
        assert forall|k: int| 0 <= k < st.done.len() implies is_word(#[trigger] st.done[k]) by {
            if k < prev.done.len() {
                assert(st.done[k] == prev.done[k]);
            } else {
                assert(st.done[k] == prev.cur);
                assert forall|i: int| 0 <= i < prev.cur.len() implies !is_ws(#[trigger] prev.cur[i]) by {}
            }
        }
        assert forall|i: int| 0 <= i < st.cur.len() implies !is_ws(#[trigger] st.cur[i]) by {
            if !is_ws(c) && i == prev.cur.len() {
                assert(st.cur[i] == c);
            } else {
                assert(st.cur[i] == prev.cur[i]);
            }
        }
    }
    assert forall|k: int| 0 <= k < words(s).len() implies is_word(#[trigger] words(s)[k]) by {
        if k == st.done.len() {
            assert(words(s)[k] == st.cur);
            assert forall|i: int| 0 <= i < st.cur.len() implies !is_ws(#[trigger] st.cur[i]) by {}
        } else {
            assert(words(s)[k] == st.done[k]);
        }
    }
}

proof fn lemma_scan_append_word(p: Seq<char>, w: Seq<char>)
    requires
        forall|i: int| 0 <= i < w.len() ==> !is_ws(#[trigger] w[i]),
    ensures
        word_scan(p + w) == (WordScan { done: word_scan(p).done, cur: word_scan(p).cur + w }),
    decreases w.len(),
{
    if w.len() == 0 {
        assert(p + w == p);
        assert(word_scan(p).cur + w == word_scan(p).cur);
    } else {
        lemma_scan_append_word(p, w.drop_last());
        assert((p + w).drop_last() == p + w.drop_last());
        assert((p + w).last() == w.last());
        assert(!is_ws(w.last()));
        assert(word_scan(p).cur + w.drop_last() + seq![w.last()] == word_scan(p).cur + w);
        assert((word_scan(p).cur + w.drop_last()).push(w.last()) == word_scan(p).cur + w);
    }
}

proof fn lemma_scan_join(ws: Seq<Seq<char>>)
    requires
        ws.len() > 0,
        forall|k: int| 0 <= k < ws.len() ==> is_word(#[trigger] ws[k]),
    ensures
        word_scan(join_space(ws)) == (WordScan { done: ws.drop_last(), cur: ws.last() }),
    decreases ws.len(),
{
    if ws.len() == 1 {
        lemma_scan_append_word(Seq::empty(), ws[0]);
        assert(Seq::<char>::empty() + ws[0] == ws[0]);
        assert(ws.drop_last() =~= Seq::<Seq<char>>::empty());
    } else {
        let pre = ws.drop_last();
        lemma_scan_join(pre);
        let x = join_space(pre);
        let xs = x + seq![' '];
        assert(xs.drop_last() == x);
        assert(xs.last() == ' ');
        assert(word_scan(xs) == (WordScan { done: pre.drop_last().push(pre.last()), cur: Seq::empty() }));
        assert(pre.drop_last().push(pre.last()) == pre);
        lemma_scan_append_word(xs, ws.last());
        assert(join_space(ws) == xs + ws.last());
        assert(Seq::<char>::empty() + ws.last() == ws.last());
    }
}

/// Splitting words joined with single spaces gives the words back.
pub proof fn lemma_words_of_joined(ws: Seq<Seq<char>>)
    requires
        forall|k: int| 0 <= k < ws.len() ==> is_word(#[trigger] ws[k]),
    ensures
        words(join_space(ws)) == ws,
{
    if ws.len() > 0 {
        lemma_scan_join(ws);
        assert(ws.drop_last().push(ws.last()) == ws);
    } else {
        assert(word_scan(Seq::<char>::empty()).done.len() == 0);
    }
}

/// Word grouping loses and reorders nothing: for every group size of at least
/// one, the groups read in order give back exactly the words of the text, the
/// chunk texts joined with spaces are the words joined with spaces (so
/// splitting them again gives exactly the text's words), and each group but the
/// last holds exactly `n` words.
pub proof fn lemma_word_groups_cover(text: Seq<char>, n: nat)
    requires
        n >= 1,
    ensures
        word_groups(words(text), n).flatten() == words(text),
        join_space(word_groups(words(text), n).map_values(|g: Seq<Seq<char>>| join_space(g)))
            == join_space(words(text)),
        words(join_space(word_groups(words(text), n).map_values(|g: Seq<Seq<char>>| join_space(g))))
            == words(text),
        forall|k: int|
            0 <= k < word_groups(words(text), n).len() ==> {
                &&& 1 <= #[trigger] word_groups(words(text), n)[k].len() <= n
                &&& k + 1 < word_groups(words(text), n).len() ==> word_groups(words(text), n)[k].len() == n
            },
{
    lemma_flatten_groups(words(text), n);
    lemma_group_sizes(words(text), n);
    lemma_join_groups(word_groups(words(text), n));
    lemma_scan_words_valid(text);
    lemma_words_of_joined(words(text));
}

proof fn lemma_group_sizes(ws: Seq<Seq<char>>, n: nat)
    requires
        n >= 1,
    ensures
        forall|k: int|
            0 <= k < word_groups(ws, n).len() ==> {
                &&& 1 <= #[trigger] word_groups(ws, n)[k].len() <= n
                &&& k + 1 < word_groups(ws, n).len() ==> word_groups(ws, n)[k].len() == n
            },
    decreases ws.len(),
{
    if ws.len() > n {
        lemma_group_sizes(ws.skip(n as int), n);
        let rest = word_groups(ws.skip(n as int), n);
        assert forall|k: int| 0 <= k < word_groups(ws, n).len() implies {
            &&& 1 <= #[trigger] word_groups(ws, n)[k].len() <= n
            &&& k + 1 < word_groups(ws, n).len() ==> word_groups(ws, n)[k].len() == n
        } by {
            if k > 0 {
                assert(word_groups(ws, n)[k] == rest[k - 1]);
            }
        }
    }
}

fn join_range(ws: &Vec<Vec<char>>, lo: usize, hi: usize) -> (r: Vec<char>)
    requires
        lo <= hi <= ws@.len(),
    ensures
        r@ == join_space(views(ws@).subrange(lo as int, hi as int)),
{
    let mut r: Vec<char> = Vec::new();
    let mut j: usize = lo;
    proof {
        assert(views(ws@).subrange(lo as int, lo as int) =~= Seq::<Seq<char>>::empty());
    }
    while j < hi
        invariant
            lo <= j <= hi <= ws@.len(),
            r@ == join_space(views(ws@).subrange(lo as int, j as int)),
        decreases hi - j,
    {
        let ghost part = views(ws@).subrange(lo as int, j + 1);
        proof {
            assert(part.drop_last() =~= views(ws@).subrange(lo as int, j as int));
            assert(part.last() == ws@[j as int]@);
        }
        if j > lo {
            r.push(' ');
        } else {
            proof {
                assert(part.len() == 1);
            }
        }
        push_chars(&mut r, &ws[j]);
        j += 1;
    }
    r
}

/// Cuts `ws` into groups of `n`; returns each group's text and word count.
fn group_words(ws: &Vec<Vec<char>>, n: usize) -> (r: (Vec<Vec<char>>, Vec<usize>))
    requires
        n >= 1,
    ensures
        views(r.0@) == word_groups(views(ws@), n as nat).map_values(|g: Seq<Seq<char>>| join_space(g)),
        r.1@.len() == r.0@.len(),
        forall|k: int| 0 <= k < r.1@.len() ==> r.1@[k] as nat == #[trigger] word_groups(views(ws@), n as nat)[k].len(),
        sum_counts(r.1@.map_values(|c: usize| c as nat)) == ws@.len(),
        r.0@.len() <= ws@.len(),
{
    let ghost all = views(ws@);
    let ghost mut groups: Seq<Seq<Seq<char>>> = Seq::empty();
    let mut texts: Vec<Vec<char>> = Vec::new();
    let mut counts: Vec<usize> = Vec::new();
    let mut i: usize = 0;
    proof {
        assert(all.skip(0) == all);
        assert(views(texts@) =~= Seq::<Seq<char>>::empty());
        assert(counts@.map_values(|c: usize| c as nat) =~= Seq::<nat>::empty());
    }
    while i < ws.len()
        invariant
            n >= 1,
            all == views(ws@),
            i <= ws@.len(),
            word_groups(all, n as nat) == groups + word_groups(all.skip(i as int), n as nat),
            views(texts@) == groups.map_values(|g: Seq<Seq<char>>| join_space(g)),
            counts@.len() == texts@.len(),
            texts@.len() == groups.len(),
            forall|k: int| 0 <= k < counts@.len() ==> counts@[k] as nat == #[trigger] groups[k].len(),
            sum_counts(counts@.map_values(|c: usize| c as nat)) == i,
            texts@.len() <= i,
        decreases ws@.len() - i,
    {
        let hi = if ws.len() - i <= n { ws.len() } else { i + n };
        let t = join_range(ws, i, hi);
        let ghost g = all.subrange(i as int, hi as int);
        let ghost old_counts = counts@.map_values(|c: usize| c as nat);
        proof {
            let rest = all.skip(i as int);
            if rest.len() <= n {
                assert(g =~= rest);
                assert(word_groups(rest, n as nat) == seq![g]);
                assert(all.skip(hi as int).len() == 0);
                assert(word_groups(all.skip(hi as int), n as nat) =~= Seq::<Seq<Seq<char>>>::empty());
            } else {
                assert(g =~= rest.take(n as int));
                assert(rest.skip(n as int) =~= all.skip(hi as int));
            }
            assert(seq![g] + word_groups(all.skip(hi as int), n as nat) == word_groups(rest, n as nat));
            assert(groups + word_groups(rest, n as nat) == (groups + seq![g]) + word_groups(all.skip(hi as int), n as nat));
        }
        let ghost old_views = views(texts@);
        let ghost old_groups = groups;
        texts.push(t);
        counts.push(hi - i);
        proof {
            groups = groups.push(g);
            assert(views(texts@) =~= old_views.push(t@));
            assert(groups.map_values(|g: Seq<Seq<char>>| join_space(g)) =~= old_groups.map_values(
                |g: Seq<Seq<char>>| join_space(g),
            ).push(join_space(g)));
            assert(views(texts@) =~= groups.map_values(|g: Seq<Seq<char>>| join_space(g)));
            let new_counts = counts@.map_values(|c: usize| c as nat);
            assert(new_counts.drop_last() =~= old_counts);
        }
        i = hi;
    }
    proof {
        assert(all.skip(i as int).len() == 0);
        assert(groups + Seq::<Seq<Seq<char>>>::empty() == groups);
    }
    (texts, counts)
}

// ---------------------------------------------------------------- timing

/// Speaking rate used for timing: the given words per minute, or 150 when the
/// given rate is not positive.
pub open spec fn effective_wpm(wpm: i32) -> nat {
    if wpm <= 0 {
        150
    } else {
        wpm as nat
    }
}

/// Display time of a chunk of `words` words at `wpm` words per minute:
/// `words * 60000 / wpm` milliseconds rounded to the nearest integer (halves
/// up), and at least 500.
pub open spec fn chunk_duration_ms(words: nat, wpm: nat) -> nat {
    let est = (120000 * words + wpm) / (2 * wpm);
    if est < 500 {
        500
    } else {
        est
    }
}

/// Start time of chunk `i` when the chunks are laid out back to back from 0.
pub open spec fn chunk_start_ms(counts: Seq<nat>, wpm: nat, i: nat) -> nat
    decreases i,
{
    if i == 0 || i > counts.len() {
        0
    } else {
        chunk_start_ms(counts, wpm, (i - 1) as nat) + chunk_duration_ms(counts[i - 1], wpm)
    }
}

/// `r` numbers the chunks from 1 in order and lays them out back to back from
/// time 0, each lasting the display time of its word count.
pub open spec fn laid_out(
    r: Seq<SubtitleEntry>,
    texts: Seq<Seq<char>>,
    counts: Seq<nat>,
    wpm: nat,
) -> bool {
    &&& r.len() == texts.len()
    &&& counts.len() == texts.len()
    &&& forall|i: int|
        0 <= i < r.len() ==> {
            &&& (#[trigger] r[i]).index == i + 1
            &&& r[i].text@ == texts[i]
            &&& r[i].start_ms == chunk_start_ms(counts, wpm, i as nat)
            &&& r[i].end_ms == r[i].start_ms + chunk_duration_ms(counts[i], wpm)
        }
}

/// The chunk texts that granularity `g` cuts from `text`.
pub open spec fn chunk_texts(text: Seq<char>, g: SubtitleGranularity) -> Seq<Seq<char>> {
    match g {
        SubtitleGranularity::Disabled => Seq::empty(),
        SubtitleGranularity::Sentence => sentences(trim(text)),
        SubtitleGranularity::Words(n) => word_groups(
            words(trim(text)),
            if n == 0 { 1 } else { n as nat },
        ).map_values(|grp: Seq<Seq<char>>| join_space(grp)),
    }
}

/// The word count that times a sentence: its words, and at least one.
pub open spec fn sentence_weight(s: Seq<char>) -> nat {
    if words(s).len() == 0 {
        1
    } else {
        words(s).len()
    }
}

/// The word count that times each chunk: the words of a sentence (at least
/// one), or the size of a word group.
pub open spec fn chunk_counts(text: Seq<char>, g: SubtitleGranularity) -> Seq<nat> {
    match g {
        SubtitleGranularity::Disabled => Seq::empty(),
        SubtitleGranularity::Sentence => sentences(trim(text)).map_values(
            |s: Seq<char>| sentence_weight(s),
        ),
        SubtitleGranularity::Words(n) => word_groups(
            words(trim(text)),
            if n == 0 { 1 } else { n as nat },
        ).map_values(|grp: Seq<Seq<char>>| grp.len()),
    }
}

fn normalize_wpm(wpm: i32) -> (r: u64)
    ensures
        r as nat == effective_wpm(wpm),
        1 <= r <= i32::MAX,
{
    if wpm <= 0 {
        150
    } else {
        wpm as u64
    }
}

proof fn lemma_duration_bound(c: nat, wpm: nat)
    requires
        wpm >= 1,
    ensures
        500 <= chunk_duration_ms(c, wpm) <= 60000 * c + 501,
{
    let est = (120000 * c + wpm) / (2 * wpm);
    assert(est <= 60000 * c + 1) by (nonlinear_arith)
        requires
            wpm >= 1,
            est == (120000 * c + wpm) / (2 * wpm),
    {
        assert((120000 * c + wpm) <= (2 * wpm) * (60000 * c + 1));
    }
}

fn build_entries(texts: Vec<Vec<char>>, counts: Vec<usize>, wpm: u64) -> (r: Vec<SubtitleEntry>)
    requires
        texts@.len() == counts@.len(),
        texts@.len() <= u32::MAX,
        sum_counts(counts@.map_values(|c: usize| c as nat)) <= u32::MAX,
        1 <= wpm <= i32::MAX,
    ensures
        laid_out(r@, views(texts@), counts@.map_values(|c: usize| c as nat), wpm as nat),
{
    let ghost cs = counts@.map_values(|c: usize| c as nat);
    let mut entries: Vec<SubtitleEntry> = Vec::new();
    let mut cursor: u64 = 0;
    let mut i: usize = 0;
    while i < texts.len()
        invariant
            cs == counts@.map_values(|c: usize| c as nat),
            texts@.len() == counts@.len() <= u32::MAX,
            sum_counts(cs) <= u32::MAX,
            1 <= wpm <= i32::MAX,
            i <= texts@.len(),
            entries@.len() == i,
            cursor as nat == chunk_start_ms(cs, wpm as nat, i as nat),
            cursor <= 60501 * sum_counts(cs.subrange(0, i as int)) + 501 * i,
            forall|k: int|
                0 <= k < i ==> {
                    &&& (#[trigger] entries@[k]).index == k + 1
                    &&& entries@[k].text@ == texts@[k]@
                    &&& entries@[k].start_ms == chunk_start_ms(cs, wpm as nat, k as nat)
                    &&& entries@[k].end_ms == entries@[k].start_ms + chunk_duration_ms(cs[k], wpm as nat)
                },
        decreases texts@.len() - i,
    {
        let c = counts[i];
        proof {
            assert(cs.subrange(0, i + 1).drop_last() =~= cs.subrange(0, i as int));
            lemma_sum_prefix_le(cs, i + 1);
            lemma_duration_bound(c as nat, wpm as nat);
        }
        let c64 = c as u64;
        let est = (120000 * c64 + wpm) / (2 * wpm);
        let duration: u64 = if est < 500 { 500 } else { est };
        proof {
            assert(duration as nat == chunk_duration_ms(cs[i as int], wpm as nat));
            assert(cursor + duration <= 60501 * sum_counts(cs.subrange(0, i + 1)) + 501 * (i + 1)) by (nonlinear_arith)
                requires
                    cursor <= 60501 * sum_counts(cs.subrange(0, i as int)) + 501 * i,
                    duration <= 60000 * c + 501,
                    sum_counts(cs.subrange(0, i + 1)) == sum_counts(cs.subrange(0, i as int)) + c,
            {}
        }
        let text = copy_range(&texts[i], 0, texts[i].len());
        proof {
            assert(texts@[i as int]@.subrange(0, texts@[i as int]@.len() as int) == texts@[i as int]@);
        }
        entries.push(SubtitleEntry { index: i + 1, start_ms: cursor, end_ms: cursor + duration, text: string_of(&text) });
        cursor = cursor + duration;
        i += 1;
    }
    entries
}

proof fn lemma_sum_prefix_le(cs: Seq<nat>, k: int)
    requires
        0 <= k <= cs.len(),
    ensures
        sum_counts(cs.subrange(0, k)) <= sum_counts(cs),
    decreases cs.len() - k,
{
    if k < cs.len() {
        lemma_sum_prefix_le(cs, k + 1);
        assert(cs.subrange(0, k + 1).drop_last() =~= cs.subrange(0, k));
    } else {
        assert(cs.subrange(0, k) =~= cs);
    }
}

fn sentence_counts(sents: &Vec<Vec<char>>) -> (r: Vec<usize>)
    requires
        forall|k: int| 0 <= k < sents@.len() ==> #[trigger] sents@[k]@.len() > 0,
    ensures
        r@.map_values(|c: usize| c as nat) == views(sents@).map_values(
            |s: Seq<char>| sentence_weight(s),
        ),
        sum_counts(r@.map_values(|c: usize| c as nat)) <= total_len(views(sents@)),
{
    let mut r: Vec<usize> = Vec::new();
    let mut k: usize = 0;
    proof {
        assert(r@.map_values(|c: usize| c as nat) =~= Seq::<nat>::empty());
        assert(views(sents@).subrange(0, 0) =~= Seq::<Seq<char>>::empty());
    }
    while k < sents.len()
        invariant
            k <= sents@.len(),
            forall|j: int| 0 <= j < sents@.len() ==> #[trigger] sents@[j]@.len() > 0,
            r@.map_values(|c: usize| c as nat) == views(sents@).subrange(0, k as int).map_values(|s: Seq<char>| sentence_weight(s)),
            sum_counts(r@.map_values(|c: usize| c as nat)) <= total_len(views(sents@).subrange(0, k as int)),
        decreases sents@.len() - k,
    {
        let w = words_of(&sents[k]);
        let c: usize = if w.len() == 0 { 1 } else { w.len() };
        let ghost old_r = r@.map_values(|c: usize| c as nat);
        r.push(c);
        proof {
            let pre = views(sents@).subrange(0, k + 1);
            assert(pre.drop_last() =~= views(sents@).subrange(0, k as int));
            assert(pre.last() == sents@[k as int]@);
            assert(views(w@).len() == w@.len());
            let now = r@.map_values(|c: usize| c as nat);
            assert(now.drop_last() =~= old_r);
            assert(pre.map_values(|s: Seq<char>| sentence_weight(s)).drop_last() =~= views(sents@).subrange(0, k as int).map_values(|s: Seq<char>| sentence_weight(s)));
            assert(now.last() == sentence_weight(pre.last()));
            let target = pre.map_values(|s: Seq<char>| sentence_weight(s));
            assert forall|j: int| 0 <= j < now.len() implies now[j] == target[j] by {
                if j < k {
                    assert(now[j] == now.drop_last()[j]);
                    assert(target[j] == target.drop_last()[j]);
                }
            }
            assert(now =~= target);
            assert(total_len(pre) == total_len(views(sents@).subrange(0, k as int)) + sents@[k as int]@.len());
        }
        k += 1;
    }
    proof {
        assert(views(sents@).subrange(0, k as int) =~= views(sents@));
    }
    r
}

/// The sentences of `text`, as [`sentences`] describes them.
pub fn split_sentences(text: &str) -> (r: Vec<String>)
    ensures
        r@.map_values(|s: String| s@) == sentences(text@),
{
    let v = chars_of(text);
    let sents = sentences_of(&v);
    strings_of(&sents)
}

/// The words of `text` cut into groups of `chunk_size` (at least one), each
/// group joined with single spaces.
pub fn split_words(text: &str, chunk_size: usize) -> (r: Vec<String>)
    requires
        chunk_size >= 1,
    ensures
        r@.map_values(|s: String| s@) == word_groups(words(text@), chunk_size as nat).map_values(
            |g: Seq<Seq<char>>| join_space(g),
        ),
{
    let v = chars_of(text);
    let ws = words_of(&v);
    let (texts, _counts) = group_words(&ws, chunk_size);
    strings_of(&texts)
}

fn strings_of(vs: &Vec<Vec<char>>) -> (r: Vec<String>)
    ensures
        r@.map_values(|s: String| s@) == views(vs@),
{
    let mut r: Vec<String> = Vec::new();
    let mut k: usize = 0;
    while k < vs.len()
        invariant
            k <= vs@.len(),
            r@.map_values(|s: String| s@) == views(vs@).subrange(0, k as int),
        decreases vs@.len() - k,
    {
        let ghost old_r = r@.map_values(|s: String| s@);
        r.push(string_of(&vs[k]));
        proof {
            assert(r@.map_values(|s: String| s@) =~= old_r.push(vs@[k as int]@));
        }
        k += 1;
        proof {
            assert(views(vs@).subrange(0, k as int) =~= views(vs@).subrange(0, k - 1).push(vs@[k - 1]@));
        }
    }
    proof {
        assert(views(vs@).subrange(0, k as int) =~= views(vs@));
    }
    r
}

/// Captions for `text` at granularity `granularity`, timed at
/// `average_words_per_minute` (150 when that is not positive). Disabled
/// granularity, and a text that is only whitespace, give no entries. The
/// entries run back to back from time 0, each lasting at least half a second.
pub fn generate_subtitles(
    text: &str,
    granularity: SubtitleGranularity,
    average_words_per_minute: i32,
) -> (r: Vec<SubtitleEntry>)
    requires
        granularity != SubtitleGranularity::Disabled ==> text@.len() <= u32::MAX,
    ensures
        granularity == SubtitleGranularity::Disabled ==> r@.len() == 0,
        trim(text@).len() == 0 ==> r@.len() == 0,
        trim(text@).len() > 0 ==> laid_out(
            r@,
            chunk_texts(text@, granularity),
            chunk_counts(text@, granularity),
            effective_wpm(average_words_per_minute),
        ),
        r@.len() > 0 ==> r@[0].start_ms == 0,
        forall|i: int| 0 <= i < r@.len() - 1 ==> #[trigger] r@[i].end_ms == r@[i + 1].start_ms,
        forall|i: int| 0 <= i < r@.len() ==> #[trigger] r@[i].start_ms < r@[i].end_ms,
{
    let v = chars_of(text);
    let trimmed = trim_chars(&v);
    if trimmed.len() == 0 {
        return Vec::new();
    }
    let wpm = normalize_wpm(average_words_per_minute);
    let r = match granularity {
        SubtitleGranularity::Disabled => Vec::new(),
        SubtitleGranularity::Sentence => {
            let sents = sentences_of(&trimmed);
            let counts = sentence_counts(&sents);
            proof {
                assert(counts@.map_values(|c: usize| c as nat) =~= chunk_counts(text@, granularity));
            }
            build_entries(sents, counts, wpm)
        },
        SubtitleGranularity::Words(n) => {
            let size: usize = if n == 0 { 1 } else { n as usize };
            let ws = words_of(&trimmed);
            let (texts, counts) = group_words(&ws, size);
            proof {
                let gs = word_groups(views(ws@), size as nat);
                assert(views(ws@) == words(trim(text@)));
                assert((size as nat) == (if n == 0 { 1nat } else { n as nat }));
                assert(gs == word_groups(words(trim(text@)), if n == 0 { 1nat } else { n as nat }));
                assert(views(texts@).len() == texts@.len());
                assert(gs.map_values(|g: Seq<Seq<char>>| join_space(g)).len() == gs.len());
                assert(counts@.len() == gs.len());
                assert forall|k: int| 0 <= k < counts@.len() implies counts@.map_values(|c: usize| c as nat)[k] == chunk_counts(text@, granularity)[k] by {
                    assert(counts@[k] as nat == gs[k].len());
                }
                assert(counts@.map_values(|c: usize| c as nat) =~= chunk_counts(text@, granularity));
                assert(views(texts@) =~= chunk_texts(text@, granularity));
            }
            build_entries(texts, counts, wpm)
        },
    };
    proof {
        let cs = chunk_counts(text@, granularity);
        let w = effective_wpm(average_words_per_minute);
        assert forall|i: int| 0 <= i < r@.len() - 1 implies #[trigger] r@[i].end_ms == r@[i + 1].start_ms by {
            assert(r@[i + 1].start_ms == chunk_start_ms(cs, w, (i + 1) as nat));
        }
        assert forall|i: int| 0 <= i < r@.len() implies #[trigger] r@[i].start_ms < r@[i].end_ms by {
            lemma_duration_bound(cs[i], w);
        }
    }
    r
}

// ---------------------------------------------------------------- SRT

pub open spec fn digit_char(d: nat) -> char {
    if d == 0 { '0' } else if d == 1 { '1' } else if d == 2 { '2' } else if d == 3 { '3' }
    else if d == 4 { '4' } else if d == 5 { '5' } else if d == 6 { '6' } else if d == 7 { '7' }
    else if d == 8 { '8' } else { '9' }
}

/// Decimal digits of `n`, without leading zeros.
pub open spec fn decimal(n: nat) -> Seq<char>
    decreases n,
{
    if n < 10 {
        seq![digit_char(n)]
    } else {
        decimal(n / 10).push(digit_char(n % 10))
    }
}

/// `n` in decimal, zero-padded to at least two digits.
pub open spec fn pad2(n: nat) -> Seq<char> {
    if n < 10 {
        seq!['0'] + decimal(n)
    } else {
        decimal(n)
    }
}

/// `n` in decimal, zero-padded to at least three digits.
pub open spec fn pad3(n: nat) -> Seq<char> {
    if n < 10 {
        seq!['0', '0'] + decimal(n)
    } else if n < 100 {
        seq!['0'] + decimal(n)
    } else {
        decimal(n)
    }
}

/// `HH:MM:SS,mmm` for a time in milliseconds (hours take more digits when
/// needed).
pub open spec fn srt_timestamp(ms: nat) -> Seq<char> {
    pad2(ms / 3600000) + seq![':'] + pad2((ms % 3600000) / 60000) + seq![':'] + pad2(
        (ms % 60000) / 1000,
    ) + seq![','] + pad3(ms % 1000)
}

/// One SRT block: number, time span, text, and a blank line.
pub open spec fn srt_block(e: SubtitleEntry) -> Seq<char> {
    decimal(e.index as nat) + seq!['\n'] + srt_timestamp(e.start_ms as nat) + seq![
        ' ',
        '-',
        '-',
        '>',
        ' ',
    ] + srt_timestamp(e.end_ms as nat) + seq!['\n'] + e.text@ + seq!['\n', '\n']
}

/// The SRT document for `entries`: their blocks, in order.
pub open spec fn srt_text(entries: Seq<SubtitleEntry>) -> Seq<char>
    decreases entries.len(),
{
    if entries.len() == 0 {
        Seq::empty()
    } else {
        srt_text(entries.drop_last()) + srt_block(entries.last())
    }
}

fn digit(d: u64) -> (c: char)
    requires
        d < 10,
    ensures
        c == digit_char(d as nat),
{
    if d == 0 { '0' } else if d == 1 { '1' } else if d == 2 { '2' } else if d == 3 { '3' }
    else if d == 4 { '4' } else if d == 5 { '5' } else if d == 6 { '6' } else if d == 7 { '7' }
    else if d == 8 { '8' } else { '9' }
}

pub(crate) fn push_decimal(out: &mut Vec<char>, n: u64)
    ensures
        final(out)@ == old(out)@ + decimal(n as nat),
    decreases n,
{
    if n >= 10 {
        push_decimal(out, n / 10);
    }
    out.push(digit(n % 10));
    proof {
        if n < 10 {
            assert(old(out)@ + decimal(n as nat) =~= old(out)@.push(digit_char(n as nat)));
        } else {
            assert(old(out)@ + decimal(n as nat) =~= (old(out)@ + decimal((n / 10) as nat)).push(
                digit_char((n % 10) as nat),
            ));
        }
    }
}

fn push_pad2(out: &mut Vec<char>, n: u64)
    ensures
        final(out)@ == old(out)@ + pad2(n as nat),
{
    if n < 10 {
        out.push('0');
    }
    push_decimal(out, n);
    proof {
        if n < 10 {
            assert(old(out)@ + pad2(n as nat) =~= old(out)@.push('0') + decimal(n as nat));
        }
    }
}

fn push_pad3(out: &mut Vec<char>, n: u64)
    ensures
        final(out)@ == old(out)@ + pad3(n as nat),
{
    if n < 10 {
        out.push('0');
        out.push('0');
    } else if n < 100 {
        out.push('0');
    }
    push_decimal(out, n);
    proof {
        if n < 10 {
            assert(old(out)@ + pad3(n as nat) =~= old(out)@.push('0').push('0') + decimal(n as nat));
        } else if n < 100 {
            assert(old(out)@ + pad3(n as nat) =~= old(out)@.push('0') + decimal(n as nat));
        }
    }
}

fn push_timestamp(out: &mut Vec<char>, ms: u64)
    ensures
        final(out)@ == old(out)@ + srt_timestamp(ms as nat),
{
    push_pad2(out, ms / 3_600_000);
    out.push(':');
    push_pad2(out, (ms % 3_600_000) / 60_000);
    out.push(':');
    push_pad2(out, (ms % 60_000) / 1_000);
    out.push(',');
    push_pad3(out, ms % 1_000);
    proof {
        let m = ms as nat;
        assert(final(out)@ =~= old(out)@ + srt_timestamp(m));
    }
}

/// `ms` as an SRT timestamp, `HH:MM:SS,mmm`.
pub fn format_timestamp(ms: u64) -> (r: String)
    ensures
        r@ == srt_timestamp(ms as nat),
{
    let mut out: Vec<char> = Vec::new();
    push_timestamp(&mut out, ms);
    proof {
        assert(out@ =~= srt_timestamp(ms as nat));
    }
    string_of(&out)
}

/// Writes `entries` as an SRT document.
pub fn format_srt(entries: &[SubtitleEntry]) -> (r: String)
    ensures
        r@ == srt_text(entries@),
{
    let mut out: Vec<char> = Vec::new();
    let mut i: usize = 0;
    proof {
        assert(entries@.subrange(0, 0) =~= Seq::<SubtitleEntry>::empty());
    }
    while i < entries.len()
        invariant
            i <= entries@.len(),
            out@ == srt_text(entries@.subrange(0, i as int)),
        decreases entries@.len() - i,
    {
        let e = &entries[i];
        let ghost before = out@;
        push_decimal(&mut out, e.index as u64);
        out.push('\n');
        push_timestamp(&mut out, e.start_ms);
        out.push(' ');
        out.push('-');
        out.push('-');
        out.push('>');
        out.push(' ');
        push_timestamp(&mut out, e.end_ms);
        out.push('\n');
        push_str(&mut out, e.text.as_str());
        out.push('\n');
        out.push('\n');
        proof {
            assert(out@ =~= before + srt_block(*e));
            assert(entries@.subrange(0, i + 1).drop_last() =~= entries@.subrange(0, i as int));
        }
        i += 1;
    }
    proof {
        assert(entries@.subrange(0, i as int) =~= entries@);
    }
    string_of(&out)
}

// ---------------------------------------------------------------- word timing

/// A single word's span, for captions that highlight word by word.
#[derive(Debug, Clone)]
pub struct WordSubtitle {
    pub word: String,
    pub start_ms: u64,
    pub end_ms: u64,
}

/// Time given to each of `count` words sharing `duration_ms`: the even share
/// rounded to the nearest millisecond (halves up), and at least 50.
pub open spec fn ms_per_word(duration_ms: nat, count: nat) -> nat {
    let share = (2 * duration_ms + count) / (2 * count);
    if share < 50 {
        50
    } else {
        share
    }
}

/// Word-by-word timing of `text` over audio of `audio_duration_ms`: word `i`
/// starts at `i` shares and ends a share later, but never after the audio;
/// the last word ends exactly with the audio.
pub fn generate_word_timing(text: &str, audio_duration_ms: u64) -> (r: Vec<WordSubtitle>)
    requires
        text@.len() <= u32::MAX,
    ensures
        r@.len() == words(text@).len(),
        forall|i: int| 0 <= i < r@.len() ==> {
            let w = ms_per_word(audio_duration_ms as nat, r@.len() as nat);
            &&& (#[trigger] r@[i]).word@ == words(text@)[i]
            &&& r@[i].start_ms == if i * w > u64::MAX { u64::MAX as int } else { i * w }
            &&& r@[i].end_ms == if i == r@.len() - 1 { audio_duration_ms as int } else if (i + 1) * w < audio_duration_ms { (i + 1) * w } else { audio_duration_ms as int }
        },
{
    let v = chars_of(text);
    let ws = words_of(&v);
    let n = ws.len();
    let mut out: Vec<WordSubtitle> = Vec::new();
    if n == 0 {
        return out;
    }
    let share128: u128 = (2 * (audio_duration_ms as u128) + (n as u128)) / (2 * (n as u128));
    proof {
        assert(share128 <= audio_duration_ms as u128 + 1) by (nonlinear_arith)
            requires
                share128 == (2 * (audio_duration_ms as u128) + (n as u128)) / (2 * (n as u128)),
                n >= 1,
        {
            assert(2 * (audio_duration_ms as u128) + (n as u128) <= (2 * (n as u128)) * (audio_duration_ms as u128 + 1));
        }
    }
    let per: u128 = if share128 < 50 { 50 } else { share128 };
    let ghost w = ms_per_word(audio_duration_ms as nat, n as nat);
    let mut i: usize = 0;
    while i < n
        invariant
            n == ws@.len(),
            views(ws@) == words(text@),
            n <= u32::MAX,
            per as nat == w,
            w <= audio_duration_ms as nat + 51,
            i <= n,
            out@.len() == i,
            forall|k: int| 0 <= k < i ==> {
                &&& (#[trigger] out@[k]).word@ == words(text@)[k]
                &&& out@[k].start_ms == if k * w > u64::MAX { u64::MAX as int } else { k * w }
                &&& out@[k].end_ms == if k == n - 1 { audio_duration_ms as int } else if (k + 1) * w < audio_duration_ms { (k + 1) * w } else { audio_duration_ms as int }
            },
        decreases n - i,
    {
        proof {
            assert((i as u128) * per <= 0xffff_ffffu128 * (0xffff_ffff_ffff_ffffu128 + 51)) by (nonlinear_arith)
                requires
                    i <= 0xffff_ffff,
                    per <= 0xffff_ffff_ffff_ffffu128 + 51,
            {}
            assert(((i + 1) as u128) * per == (i as u128) * per + per) by (nonlinear_arith);
        }
        let start: u128 = (i as u128) * per;
        let end: u128 = start + per;
        let end_ms: u64 = if i == n - 1 {
            audio_duration_ms
        } else if end < audio_duration_ms as u128 {
            end as u64
        } else {
            audio_duration_ms
        };
        let start_ms: u64 = if start > u64::MAX as u128 { u64::MAX } else { start as u64 };
        let ghost before = out@;
        out.push(WordSubtitle { word: string_of(&ws[i]), start_ms, end_ms });
        proof {
            assert(out@[i as int].word@ == views(ws@)[i as int]);
            assert forall|k: int| 0 <= k < i + 1 implies {
                &&& (#[trigger] out@[k]).word@ == words(text@)[k]
                &&& out@[k].start_ms == if k * w > u64::MAX { u64::MAX as int } else { k * w }
                &&& out@[k].end_ms == if k == n - 1 { audio_duration_ms as int } else if (k + 1) * w < audio_duration_ms { (k + 1) * w } else { audio_duration_ms as int }
            } by {
                if k < i {
                    assert(out@[k] == before[k]);
                } else {
                    assert(k == i);
                    assert(start as int == k * w);
                    assert(end as int == (k + 1) * w);
                }
            }
        }
        i += 1;
    }
    out
}

// ---------------------------------------------------------------- WebVTT and ASS

/// `HH:MM:SS.mmm` for a time in milliseconds.
pub open spec fn vtt_timestamp(ms: nat) -> Seq<char> {
    pad2(ms / 3600000) + seq![':'] + pad2((ms % 3600000) / 60000) + seq![':'] + pad2(
        (ms % 60000) / 1000,
    ) + seq!['.'] + pad3(ms % 1000)
}

/// `H:MM:SS.cc` (centiseconds, rounded down) for a time in milliseconds.
pub open spec fn ass_timestamp(ms: nat) -> Seq<char> {
    decimal(ms / 3600000) + seq![':'] + pad2((ms % 3600000) / 60000) + seq![':'] + pad2(
        (ms % 60000) / 1000,
    ) + seq!['.'] + pad2((ms % 1000) / 10)
}

pub open spec fn vtt_block(e: SubtitleEntry) -> Seq<char> {
    decimal(e.index as nat) + seq!['\n'] + vtt_timestamp(e.start_ms as nat) + seq![
        ' ',
        '-',
        '-',
        '>',
        ' ',
    ] + vtt_timestamp(e.end_ms as nat) + seq!['\n'] + e.text@ + seq!['\n', '\n']
}

pub open spec fn ass_line(e: SubtitleEntry) -> Seq<char> {
    "Dialogue: 0,"@ + ass_timestamp(e.start_ms as nat) + seq![','] + ass_timestamp(e.end_ms as nat)
        + ",Default,,0,0,0,,"@ + e.text@ + seq!['\n']
}

pub open spec fn vtt_body(entries: Seq<SubtitleEntry>) -> Seq<char>
    decreases entries.len(),
{
    if entries.len() == 0 {
        Seq::empty()
    } else {
        vtt_body(entries.drop_last()) + vtt_block(entries.last())
    }
}

pub open spec fn ass_body(entries: Seq<SubtitleEntry>) -> Seq<char>
    decreases entries.len(),
{
    if entries.len() == 0 {
        Seq::empty()
    } else {
        ass_body(entries.drop_last()) + ass_line(entries.last())
    }
}

/// The script header of an ASS document: one default style, white Arial.
pub open spec fn ass_header() -> Seq<char> {
    "[Script Info]\nTitle: Generated Subtitles\n\n[V4+ Styles]\nFormat: Name, Fontname, Fontsize, PrimaryColour, SecondaryColour, OutlineColour, BackColour, Bold, Italic, Underline, StrikeOut, ScaleX, ScaleY, Spacing, Angle, BorderStyle, Outline, Shadow, Alignment, MarginL, MarginR, MarginV, Encoding\nStyle: Default,Arial,20,&H00FFFFFF,&H000000FF,&H00000000,&H80000000,0,0,0,0,100,100,0,0,1,2,0,2,10,10,10,1\n\n[Events]\nFormat: Layer, Start, End, Style, Name, MarginL, MarginR, MarginV, Effect, Text\n"@
}

fn push_vtt_timestamp(out: &mut Vec<char>, ms: u64)
    ensures
        final(out)@ == old(out)@ + vtt_timestamp(ms as nat),
{
    push_pad2(out, ms / 3_600_000);
    out.push(':');
    push_pad2(out, (ms % 3_600_000) / 60_000);
    out.push(':');
    push_pad2(out, (ms % 60_000) / 1_000);
    out.push('.');
    push_pad3(out, ms % 1_000);
    proof {
        assert(final(out)@ =~= old(out)@ + vtt_timestamp(ms as nat));
    }
}

fn push_ass_timestamp(out: &mut Vec<char>, ms: u64)
    ensures
        final(out)@ == old(out)@ + ass_timestamp(ms as nat),
{
    push_decimal(out, ms / 3_600_000);
    out.push(':');
    push_pad2(out, (ms % 3_600_000) / 60_000);
    out.push(':');
    push_pad2(out, (ms % 60_000) / 1_000);
    out.push('.');
    push_pad2(out, (ms % 1_000) / 10);
    proof {
        assert(final(out)@ =~= old(out)@ + ass_timestamp(ms as nat));
    }
}

/// Writes `entries` as a WebVTT document.
pub fn format_vtt(entries: &[SubtitleEntry]) -> (r: String)
    ensures
        r@ == "WEBVTT\n\n"@ + vtt_body(entries@),
{
    let mut out: Vec<char> = Vec::new();
    push_str(&mut out, "WEBVTT\n\n");
    let ghost head = out@;
    let mut i: usize = 0;
    proof {
        assert(entries@.subrange(0, 0) =~= Seq::<SubtitleEntry>::empty());
        assert(out@ =~= head + vtt_body(entries@.subrange(0, 0)));
    }
    while i < entries.len()
        invariant
            head == "WEBVTT\n\n"@,
            i <= entries@.len(),
            out@ == head + vtt_body(entries@.subrange(0, i as int)),
        decreases entries@.len() - i,
    {
        let e = &entries[i];
        let ghost before = out@;
        push_decimal(&mut out, e.index as u64);
        out.push('\n');
        push_vtt_timestamp(&mut out, e.start_ms);
        push_str(&mut out, " --> ");
        push_vtt_timestamp(&mut out, e.end_ms);
        out.push('\n');
        push_str(&mut out, e.text.as_str());
        out.push('\n');
        out.push('\n');
        proof {
            reveal_strlit(" --> ");
            assert(out@ =~= before + vtt_block(*e));
            assert(entries@.subrange(0, i + 1).drop_last() =~= entries@.subrange(0, i as int));
            assert(out@ =~= head + vtt_body(entries@.subrange(0, i + 1)));
        }
        i += 1;
    }
    proof {
        assert(entries@.subrange(0, i as int) =~= entries@);
    }
    string_of(&out)
}

/// Writes `entries` as an ASS script: the header, then one dialogue line per
/// entry.
pub fn format_ass(entries: &[SubtitleEntry]) -> (r: String)
    ensures
        r@ == ass_header() + ass_body(entries@),
{
    let mut out: Vec<char> = Vec::new();
    push_str(&mut out, "[Script Info]\nTitle: Generated Subtitles\n\n[V4+ Styles]\nFormat: Name, Fontname, Fontsize, PrimaryColour, SecondaryColour, OutlineColour, BackColour, Bold, Italic, Underline, StrikeOut, ScaleX, ScaleY, Spacing, Angle, BorderStyle, Outline, Shadow, Alignment, MarginL, MarginR, MarginV, Encoding\nStyle: Default,Arial,20,&H00FFFFFF,&H000000FF,&H00000000,&H80000000,0,0,0,0,100,100,0,0,1,2,0,2,10,10,10,1\n\n[Events]\nFormat: Layer, Start, End, Style, Name, MarginL, MarginR, MarginV, Effect, Text\n");
    let ghost head = out@;
    let mut i: usize = 0;
    proof {
        assert(entries@.subrange(0, 0) =~= Seq::<SubtitleEntry>::empty());
        assert(out@ =~= head + ass_body(entries@.subrange(0, 0)));
    }
    while i < entries.len()
        invariant
            head == ass_header(),
            i <= entries@.len(),
            out@ == head + ass_body(entries@.subrange(0, i as int)),
        decreases entries@.len() - i,
    {
        let e = &entries[i];
        let ghost before = out@;
        push_str(&mut out, "Dialogue: 0,");
        push_ass_timestamp(&mut out, e.start_ms);
        out.push(',');
        push_ass_timestamp(&mut out, e.end_ms);
        push_str(&mut out, ",Default,,0,0,0,,");
        push_str(&mut out, e.text.as_str());
        out.push('\n');
        proof {
            assert(out@ =~= before + ass_line(*e));
            assert(entries@.subrange(0, i + 1).drop_last() =~= entries@.subrange(0, i as int));
            assert(out@ =~= head + ass_body(entries@.subrange(0, i + 1)));
        }
        i += 1;
    }
    proof {
        assert(entries@.subrange(0, i as int) =~= entries@);
    }
    string_of(&out)
}

} // verus!
