//! The operator splitter: finds a control operator occurring as its own
//! word at the top level of a command line — outside every quoted or
//! parenthesis-grouped region — and splits the line there.
//!
//! The search runs over words segmented with the tokenizer's own
//! quote/escape awareness, never over the raw text, so operator
//! characters produced by quoting are never mistaken for control
//! operators.

use vstd::prelude::*;

use crate::chars::{chars_string, is_space, str_chars};
use crate::lex::{is_sep, scan_init, scan_step, sum_lens, ScanSt};

verus! {

/// Word-splitting accumulator: scanner state, the word being built (raw
/// characters, quotes and escapes kept), and the words already
/// finished.
pub struct WordAcc {
    pub st: ScanSt,
    pub cur: Seq<char>,
    pub words: Seq<Seq<char>>,
}

pub open spec fn word_acc_init() -> WordAcc {
    WordAcc { st: scan_init(), cur: Seq::empty(), words: Seq::empty() }
}

pub open spec fn word_acc_step(a: WordAcc, c: char) -> WordAcc {
    let st2 = scan_step(a.st, c);
    if is_sep(a.st, c) {
        WordAcc {
            st: st2,
            cur: Seq::empty(),
            words: if a.cur.len() > 0 {
                a.words.push(a.cur)
            } else {
                a.words
            },
        }
    } else {
        WordAcc { st: st2, cur: a.cur.push(c), words: a.words }
    }
}

pub open spec fn word_scan(s: Seq<char>) -> WordAcc
    decreases s.len(),
{
    if s.len() == 0 {
        word_acc_init()
    } else {
        word_acc_step(word_scan(s.drop_last()), s.last())
    }
}

/// The raw words of `s`: maximal runs of characters between top-level
/// white space.
pub open spec fn spec_words(s: Seq<char>) -> Seq<Seq<char>> {
    let a = word_scan(s);
    if a.cur.len() > 0 {
        a.words.push(a.cur)
    } else {
        a.words
    }
}

/// The index of the first word equal to `op`, if any.
pub open spec fn first_ix(ws: Seq<Seq<char>>, op: Seq<char>) -> Option<int>
    decreases ws.len(),
{
    if ws.len() == 0 {
        None
    } else if ws[0] == op {
        Some(0)
    } else {
        match first_ix(ws.drop_first(), op) {
            Some(j) => Some(j + 1),
            None => None,
        }
    }
}

/// The index of the last word equal to `op`, if any.
pub open spec fn last_ix(ws: Seq<Seq<char>>, op: Seq<char>) -> Option<int>
    decreases ws.len(),
{
    if ws.len() == 0 {
        None
    } else if ws.last() == op {
        Some(ws.len() - 1)
    } else {
        last_ix(ws.drop_last(), op)
    }
}

pub open spec fn oper_ix(ws: Seq<Seq<char>>, op: Seq<char>, last: bool) -> Option<int> {
    if last {
        last_ix(ws, op)
    } else {
        first_ix(ws, op)
    }
}

/// Words joined with single spaces.
pub open spec fn join_sp(ws: Seq<Seq<char>>) -> Seq<char>
    decreases ws.len(),
{
    if ws.len() == 0 {
        Seq::empty()
    } else if ws.len() == 1 {
        ws[0]
    } else {
        join_sp(ws.drop_last()) + seq![' '] + ws.last()
    }
}

pub proof fn lemma_join_sp_len(ws: Seq<Seq<char>>)
    ensures
        ws.len() == 0 ==> join_sp(ws).len() == 0,
        ws.len() >= 1 ==> join_sp(ws).len() == sum_lens(ws) + ws.len() - 1,
    decreases ws.len(),
{
    if ws.len() > 1 {
        lemma_join_sp_len(ws.drop_last());
    } else if ws.len() == 1 {
        assert(ws.drop_last() =~= Seq::<Seq<char>>::empty());
        assert(sum_lens(ws) == sum_lens(ws.drop_last()) + ws.last().len());
    }
}

/// Every word is non-empty, and the words joined with their separators
/// fit in the input.
pub proof fn lemma_word_scan_bounds(s: Seq<char>)
    ensures
        forall|i: int| 0 <= i < word_scan(s).words.len() ==> word_scan(s).words[i].len() > 0,
        sum_lens(word_scan(s).words) + word_scan(s).words.len() + word_scan(s).cur.len()
            <= s.len(),
    decreases s.len(),
{
    if s.len() > 0 {
        lemma_word_scan_bounds(s.drop_last());
        let a = word_scan(s.drop_last());
        if is_sep(a.st, s.last()) && a.cur.len() > 0 {
            crate::lex::lemma_sum_lens_push(a.words, a.cur);
        }
    }
}

pub proof fn lemma_words_bounds(s: Seq<char>)
    ensures
        forall|i: int| 0 <= i < spec_words(s).len() ==> spec_words(s)[i].len() > 0,
        spec_words(s).len() >= 1 ==> sum_lens(spec_words(s)) + spec_words(s).len() <= s.len() + 1,
{
    lemma_word_scan_bounds(s);
    let a = word_scan(s);
    if a.cur.len() > 0 {
        crate::lex::lemma_sum_lens_push(a.words, a.cur);
        assert forall|i: int| 0 <= i < spec_words(s).len() implies spec_words(s)[i].len()
            > 0 by {
            if i < a.words.len() {
                assert(spec_words(s)[i] == a.words[i]);
            }
        }
    }
}

pub proof fn lemma_sum_lens_split(ws: Seq<Seq<char>>, i: int)
    requires
        0 <= i < ws.len(),
    ensures
        sum_lens(ws) == sum_lens(ws.take(i)) + ws[i].len() + sum_lens(ws.skip(i + 1)),
    decreases ws.len(),
{
    if i == ws.len() - 1 {
        assert(ws.take(i) =~= ws.drop_last());
        assert(ws.skip(i + 1) =~= Seq::<Seq<char>>::empty());
    } else {
        lemma_sum_lens_split(ws.drop_last(), i);
        assert(ws.drop_last().take(i) =~= ws.take(i));
        assert(ws.drop_last()[i] == ws[i]);
        assert(ws.skip(i + 1).drop_last() =~= ws.drop_last().skip(i + 1));
        assert(ws.skip(i + 1).len() > 0);
        assert(ws.skip(i + 1).last() == ws.last());
        assert(sum_lens(ws.skip(i + 1)) == sum_lens(ws.drop_last().skip(i + 1))
            + ws.last().len());
    }
}

pub proof fn lemma_join_push(ws: Seq<Seq<char>>, w: Seq<char>)
    ensures
        ws.len() == 0 ==> join_sp(ws.push(w)) == w,
        ws.len() >= 1 ==> join_sp(ws.push(w)) == join_sp(ws) + seq![' '] + w,
{
    assert(ws.push(w).drop_last() =~= ws);
    assert(ws.push(w).last() == w);
    if ws.len() == 0 {
        assert(join_sp(ws.push(w)) == ws.push(w)[0]);
    }
}

/// The halves of a split are strictly shorter than the whole line.
pub proof fn lemma_split_halves_shorter(s: Seq<char>, i: int)
    requires
        0 <= i < spec_words(s).len(),
    ensures
        join_sp(spec_words(s).take(i)).len() < s.len(),
        join_sp(spec_words(s).skip(i + 1)).len() < s.len(),
{
    let ws = spec_words(s);
    lemma_words_bounds(s);
    lemma_sum_lens_split(ws, i);
    lemma_join_sp_len(ws.take(i));
    lemma_join_sp_len(ws.skip(i + 1));
    assert(ws[i].len() >= 1);
    assert(sum_lens(ws.take(i)) + ws[i].len() + sum_lens(ws.skip(i + 1)) + ws.len() <= s.len()
        + 1);
}

/// Compares two character vectors.
pub fn chars_eq(a: &Vec<char>, b: &Vec<char>) -> (r: bool)
    ensures
        r == (a@ == b@),
{
    if a.len() != b.len() {
        proof {
            assert(a@ != b@);
        }
        return false;
    }
    let mut i: usize = 0;
    while i < a.len()
        invariant
            a@.len() == b@.len(),
            i <= a@.len(),
            forall|j: int| 0 <= j < i ==> a@[j] == b@[j],
        decreases a@.len() - i,
    {
        if a[i] != b[i] {
            return false;
        }
        i = i + 1;
    }
    proof {
        assert(a@ =~= b@);
    }
    true
}

/// Computes the raw top-level words of `s` (quotes and escapes kept in
/// the text, but honored by the segmentation).
fn words_of(v: &Vec<char>) -> (r: Vec<Vec<char>>)
    ensures
        r@.map_values(|w: Vec<char>| w@) == spec_words(v@),
{
    let ghost gs = v@;
    let mut words: Vec<Vec<char>> = Vec::new();
    let mut cur: Vec<char> = Vec::new();
    let mut in_quote = false;
    let mut escaped = false;
    let mut depth: i128 = 0;
    let mut i: usize = 0;
    while i < v.len()
        invariant
            v@ == gs,
            i <= gs.len(),
            word_scan(gs.take(i as int)).st == (ScanSt {
                in_quote,
                escaped,
                depth: depth as int,
            }),
            word_scan(gs.take(i as int)).cur == cur@,
            word_scan(gs.take(i as int)).words == words@.map_values(|w: Vec<char>| w@),
            -(i as int) <= depth <= i as int,
        decreases v.len() - i,
    {
        let c = v[i];
        proof {
            assert(gs.take(i as int + 1).drop_last() =~= gs.take(i as int));
            assert(gs.take(i as int + 1).last() == c);
        }
        let ghost pre = word_scan(gs.take(i as int));
        if is_space(c) && !in_quote && depth == 0 {
            if cur.len() > 0 {
                let ghost ow = words@;
                words.push(cur);
                cur = Vec::new();
                proof {
                    assert(words@.map_values(|w: Vec<char>| w@) =~= ow.map_values(
                        |w: Vec<char>| w@,
                    ).push(pre.cur));
                }
            }
            escaped = false;
        } else {
            if !escaped && c == '"' {
                in_quote = !in_quote;
                escaped = false;
            } else if !escaped && c == '(' {
                depth = depth + 1;
                escaped = false;
            } else if !escaped && c == ')' {
                depth = depth - 1;
                escaped = false;
            } else if !escaped && c == '\\' {
                escaped = true;
            } else {
                escaped = false;
            }
            cur.push(c);
        }
        i = i + 1;
        proof {
            assert(word_scan(gs.take(i as int)) == word_acc_step(pre, c));
            assert(word_scan(gs.take(i as int)).cur =~= cur@);
            assert(word_scan(gs.take(i as int)).words =~= words@.map_values(|w: Vec<char>| w@));
        }
    }
    proof {
        assert(gs.take(gs.len() as int) =~= gs);
    }
    if cur.len() > 0 {
        let ghost ow = words@;
        words.push(cur);
        proof {
            assert(words@.map_values(|w: Vec<char>| w@) =~= ow.map_values(|w: Vec<char>| w@).push(
                word_scan(gs).cur,
            ));
        }
    }
    proof {
        assert(words@.map_values(|w: Vec<char>| w@) =~= spec_words(gs));
    }
    words
}

/// Joins `ws[from..to]` with single spaces.
fn join_range(ws: &Vec<Vec<char>>, from: usize, to: usize) -> (r: Vec<char>)
    requires
        from <= to <= ws@.len(),
    ensures
        r@ == join_sp(ws@.map_values(|w: Vec<char>| w@).subrange(from as int, to as int)),
{
    let ghost gws = ws@.map_values(|w: Vec<char>| w@);
    let mut out: Vec<char> = Vec::new();
    let mut k = from;
    while k < to
        invariant
            from <= k <= to <= ws@.len(),
            gws == ws@.map_values(|w: Vec<char>| w@),
            out@ == join_sp(gws.subrange(from as int, k as int)),
        decreases to - k,
    {
        proof {
            assert(gws.subrange(from as int, k as int + 1) =~= gws.subrange(
                from as int,
                k as int,
            ).push(gws[k as int]));
            lemma_join_push(gws.subrange(from as int, k as int), gws[k as int]);
        }
        if k > from {
            out.push(' ');
        } else {
            proof {
                assert(gws.subrange(from as int, k as int).len() == 0);
            }
        }
        let mut j: usize = 0;
        let ghost obase = out@;
        let w = &ws[k];
        while j < w.len()
            invariant
                j <= w@.len(),
                out@ == obase + w@.subrange(0, j as int),
            decreases w@.len() - j,
        {
            out.push(w[j]);
            proof {
                assert(w@.subrange(0, j as int + 1) =~= w@.subrange(0, j as int).push(
                    w@[j as int],
                ));
            }
            j = j + 1;
        }
        proof {
            assert(w@.subrange(0, w@.len() as int) =~= w@);
            assert(out@ =~= join_sp(gws.subrange(from as int, k as int + 1)));
        }
        k = k + 1;
    }
    out
}

/// Splits `command` around one control operator.
///
/// The operator must occur as a whole word at the top level — outside
/// any quoted or parenthesis-grouped region.  `last` selects the
/// rightmost occurrence instead of the leftmost.  The halves are the
/// surrounding words re-joined with single spaces; both are strictly
/// shorter than the input.
pub fn split_by_oper(command: &str, oper: &str, last: bool) -> (r: Option<(String, String)>)
    ensures
        ({
            let ws = spec_words(command@);
            match r {
                None => oper_ix(ws, oper@, last) is None,
                Some((l, rr)) => {
                    &&& oper_ix(ws, oper@, last) matches Some(i)
                    &&& l@ == join_sp(ws.take(oper_ix(ws, oper@, last)->0))
                    &&& rr@ == join_sp(ws.skip(oper_ix(ws, oper@, last)->0 + 1))
                    &&& l@.len() < command@.len()
                    &&& rr@.len() < command@.len()
                },
            }
        }),
{
    let v = str_chars(command);
    let opv = str_chars(oper);
    let words = words_of(&v);
    let ghost gws = words@.map_values(|w: Vec<char>| w@);
    let mut found: Option<usize> = None;
    let mut k: usize = 0;
    while k < words.len()
        invariant
            k <= words@.len(),
            gws == words@.map_values(|w: Vec<char>| w@),
            opv@ == oper@,
            match found {
                Some(p) => p < k && oper_ix(gws.take(k as int), oper@, last) == Some(p as int)
                    && (last || oper_ix(gws, oper@, last) == Some(p as int)),
                None => oper_ix(gws.take(k as int), oper@, last) is None && (!last
                    ==> first_ix_none_prefix(gws, oper@, k as int)),
            },
        decreases words@.len() - k,
    {
        if (!last && found.is_none()) || last {
            if chars_eq(&words[k], &opv) {
                found = Some(k);
            }
        }
        proof {
            lemma_ix_extend(gws, oper@, k as int, last);
        }
        k = k + 1;
    }
    proof {
        assert(gws.take(gws.len() as int) =~= gws);
    }
    match found {
        None => None,
        Some(p) => {
            let ghost gi = oper_ix(gws, oper@, last)->0;
            proof {
                assert(gi == p as int);
                lemma_split_halves_shorter(command@, p as int);
                assert(gws.take(p as int) =~= gws.subrange(0, p as int));
                assert(gws.skip(p as int + 1) =~= gws.subrange(p as int + 1, gws.len() as int));
            }
            let left = join_range(&words, 0, p);
            let right = join_range(&words, p + 1, words.len());
            let ls = chars_string(&left);
            let rs = chars_string(&right);
            Some((ls, rs))
        },
    }
}

/// No occurrence of `op` among the first `k` words.
pub open spec fn first_ix_none_prefix(ws: Seq<Seq<char>>, op: Seq<char>, k: int) -> bool {
    forall|j: int| 0 <= j < k && j < ws.len() ==> ws[j] != op
}

/// Extending the scanned prefix by one word updates the found index as
/// the loop expects.
pub proof fn lemma_ix_extend(ws: Seq<Seq<char>>, op: Seq<char>, k: int, last: bool)
    requires
        0 <= k < ws.len(),
    ensures
        last ==> (last_ix(ws.take(k + 1), op) == if ws[k] == op {
            Some(k)
        } else {
            last_ix(ws.take(k), op)
        }),
        !last ==> (first_ix(ws.take(k + 1), op) == if first_ix(ws.take(k), op) is Some {
            first_ix(ws.take(k), op)
        } else if ws[k] == op {
            Some(k)
        } else {
            None
        }),
        !last ==> (first_ix(ws, op) == Some(k) <==> first_ix_none_prefix(ws, op, k) && ws[k]
            == op),
{
    assert(ws.take(k + 1).drop_last() =~= ws.take(k));
    assert(ws.take(k + 1).last() == ws[k]);
    if last {
        if ws[k] != op {
        }
    } else {
        lemma_first_ix_prefix(ws.take(k + 1), op);
        lemma_first_ix_prefix(ws.take(k), op);
        lemma_first_ix_prefix(ws, op);
    }
}

/// `first_ix` finds the least matching index.
pub proof fn lemma_first_ix_prefix(ws: Seq<Seq<char>>, op: Seq<char>)
    ensures
        match first_ix(ws, op) {
            Some(i) => 0 <= i < ws.len() && ws[i] == op && forall|j: int| 0 <= j < i ==> ws[j]
                != op,
            None => forall|j: int| 0 <= j < ws.len() ==> ws[j] != op,
        },
    decreases ws.len(),
{
    if ws.len() > 0 && ws[0] != op {
        lemma_first_ix_prefix(ws.drop_first(), op);
        match first_ix(ws.drop_first(), op) {
            Some(i) => {
                assert(forall|j: int| 1 <= j < i + 1 ==> ws[j] == ws.drop_first()[j - 1]);
            },
            None => {
                assert(forall|j: int| 1 <= j < ws.len() ==> ws[j] == ws.drop_first()[j - 1]);
            },
        }
    }
}

} // verus!
