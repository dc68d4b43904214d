//! The tokenizer: splits a raw command line into words, honoring
//! quoting, escaping, and balanced-parenthesis grouping.
//!
//! A double quote toggles the "in quote" state and is dropped from the
//! output; a backslash escapes the next character and is dropped;
//! parentheses track a nesting depth and are kept.  White space splits
//! tokens only outside quotes and at depth zero.

use vstd::prelude::*;

use crate::chars::{chars_string, is_space, is_space_char, str_chars};

verus! {

/// The scanner state: inside a double-quoted region, just after an
/// unescaped backslash, and the parenthesis nesting depth.
pub struct ScanSt {
    pub in_quote: bool,
    pub escaped: bool,
    pub depth: int,
}

pub open spec fn scan_init() -> ScanSt {
    ScanSt { in_quote: false, escaped: false, depth: 0 }
}

/// Is `c` a token separator in state `st`?  White space separates
/// tokens only outside quotes and outside parentheses; escaping does
/// not protect white space.
pub open spec fn is_sep(st: ScanSt, c: char) -> bool {
    is_space_char(c) && !st.in_quote && st.depth == 0
}

/// One step of the scanner on character `c`.
pub open spec fn scan_step(st: ScanSt, c: char) -> ScanSt {
    if is_sep(st, c) {
        ScanSt { escaped: false, ..st }
    } else if !st.escaped && c == '"' {
        ScanSt { in_quote: !st.in_quote, escaped: false, ..st }
    } else if !st.escaped && c == '(' {
        ScanSt { depth: st.depth + 1, escaped: false, ..st }
    } else if !st.escaped && c == ')' {
        ScanSt { depth: st.depth - 1, escaped: false, ..st }
    } else if !st.escaped && c == '\\' {
        ScanSt { escaped: true, ..st }
    } else {
        ScanSt { escaped: false, ..st }
    }
}

/// The character that `c` contributes to the current token, if any.
/// Quote characters, backslashes and separators are dropped.
pub open spec fn tok_emit(st: ScanSt, c: char) -> Option<char> {
    if is_sep(st, c) {
        None
    } else if !st.escaped && (c == '"' || c == '\\') {
        None
    } else {
        Some(c)
    }
}

/// Tokenizer accumulator: scanner state, the token being built, and the
/// tokens already finished.
pub struct TokAcc {
    pub st: ScanSt,
    pub cur: Seq<char>,
    pub toks: Seq<Seq<char>>,
}

pub open spec fn tok_acc_init() -> TokAcc {
    TokAcc { st: scan_init(), cur: Seq::empty(), toks: Seq::empty() }
}

pub open spec fn tok_acc_step(a: TokAcc, c: char) -> TokAcc {
    let st2 = scan_step(a.st, c);
    if is_sep(a.st, c) {
        TokAcc {
            st: st2,
            cur: Seq::empty(),
            toks: if a.cur.len() > 0 {
                a.toks.push(a.cur)
            } else {
                a.toks
            },
        }
    } else {
        match tok_emit(a.st, c) {
            Some(cc) => TokAcc { st: st2, cur: a.cur.push(cc), toks: a.toks },
            None => TokAcc { st: st2, cur: a.cur, toks: a.toks },
        }
    }
}

/// Runs the tokenizer over `s`, left to right.
pub open spec fn tok_scan(s: Seq<char>) -> TokAcc
    decreases s.len(),
{
    if s.len() == 0 {
        tok_acc_init()
    } else {
        tok_acc_step(tok_scan(s.drop_last()), s.last())
    }
}

/// The tokens of `s`: the finished tokens plus the final partial token,
/// if it is non-empty.
pub open spec fn spec_tokens(s: Seq<char>) -> Seq<Seq<char>> {
    let a = tok_scan(s);
    if a.cur.len() > 0 {
        a.toks.push(a.cur)
    } else {
        a.toks
    }
}

/// The views of a sequence of strings.
pub open spec fn views_of(ss: Seq<String>) -> Seq<Seq<char>> {
    ss.map_values(|t: String| t@)
}

/// The total length of a sequence of sequences.
pub open spec fn sum_lens(ss: Seq<Seq<char>>) -> nat
    decreases ss.len(),
{
    if ss.len() == 0 {
        0
    } else {
        sum_lens(ss.drop_last()) + ss.last().len()
    }
}

pub proof fn lemma_sum_lens_push(ss: Seq<Seq<char>>, t: Seq<char>)
    ensures
        sum_lens(ss.push(t)) == sum_lens(ss) + t.len(),
{
    assert(ss.push(t).drop_last() =~= ss);
    assert(ss.push(t).last() == t);
}

/// Every token is non-empty, and the tokens together are no longer than
/// the input.
pub proof fn lemma_tok_scan_bounds(s: Seq<char>)
    ensures
        forall|i: int| 0 <= i < tok_scan(s).toks.len() ==> tok_scan(s).toks[i].len() > 0,
        sum_lens(tok_scan(s).toks) + tok_scan(s).cur.len() <= s.len(),
    decreases s.len(),
{
    if s.len() > 0 {
        lemma_tok_scan_bounds(s.drop_last());
        let a = tok_scan(s.drop_last());
        if is_sep(a.st, s.last()) && a.cur.len() > 0 {
            lemma_sum_lens_push(a.toks, a.cur);
        }
    }
}

pub proof fn lemma_tokens_bounds(s: Seq<char>)
    ensures
        forall|i: int| 0 <= i < spec_tokens(s).len() ==> spec_tokens(s)[i].len() > 0,
        sum_lens(spec_tokens(s)) <= s.len(),
{
    lemma_tok_scan_bounds(s);
    let a = tok_scan(s);
    if a.cur.len() > 0 {
        lemma_sum_lens_push(a.toks, a.cur);
        assert forall|i: int| 0 <= i < spec_tokens(s).len() implies spec_tokens(s)[i].len()
            > 0 by {
            if i < a.toks.len() {
                assert(spec_tokens(s)[i] == a.toks[i]);
            }
        }
    }
}

/// In a sequence of non-empty items, one item plus one character for
/// each other item still fits in the total.
pub proof fn lemma_sum_lens_elem(ss: Seq<Seq<char>>, i: int)
    requires
        0 <= i < ss.len(),
        forall|j: int| 0 <= j < ss.len() ==> ss[j].len() > 0,
    ensures
        ss[i].len() + ss.len() - 1 <= sum_lens(ss),
    decreases ss.len(),
{
    if ss.len() > 1 {
        if i < ss.len() - 1 {
            lemma_sum_lens_elem(ss.drop_last(), i);
            assert(ss.drop_last()[i] == ss[i]);
        } else {
            lemma_sum_lens_elem(ss.drop_last(), 0);
            assert(ss.drop_last()[0] == ss[0]);
        }
    }
}

/// A scan of pure white space stays in the initial state and yields
/// nothing.
pub proof fn lemma_tok_scan_spaces(s: Seq<char>)
    requires
        forall|j: int| 0 <= j < s.len() ==> is_space_char(s[j]),
    ensures
        tok_scan(s) == tok_acc_init(),
    decreases s.len(),
{
    if s.len() > 0 {
        assert(forall|j: int| 0 <= j < s.drop_last().len() ==> is_space_char(s.drop_last()[j]));
        lemma_tok_scan_spaces(s.drop_last());
        assert(is_space_char(s.last()));
        assert(tok_scan(s) =~= tok_acc_init());
    }
}

pub proof fn lemma_views_push(ss: Seq<String>, t: String)
    ensures
        views_of(ss.push(t)) =~= views_of(ss).push(t@),
{
}

/// Splits a command line into tokens.
///
/// The token sequence is exactly `spec_tokens` of the input; every
/// input, however malformed its quoting, yields some token sequence,
/// and an all-white-space input yields none.
pub fn tokenize(command: &str) -> (r: Vec<String>)
    ensures
        views_of(r@) == spec_tokens(command@),
        (forall|j: int| 0 <= j < command@.len() ==> is_space_char(command@[j])) ==> r@.len() == 0,
{
    let v = str_chars(command);
    let ghost gs = command@;
    let mut toks: Vec<String> = Vec::new();
    let mut cur: Vec<char> = Vec::new();
    let mut in_quote = false;
    let mut escaped = false;
    let mut depth: i128 = 0;
    let mut i: usize = 0;
    while i < v.len()
        invariant
            v@ == gs,
            i <= gs.len(),
            tok_scan(gs.take(i as int)).st == (ScanSt {
                in_quote,
                escaped,
                depth: depth as int,
            }),
            tok_scan(gs.take(i as int)).cur == cur@,
            tok_scan(gs.take(i as int)).toks == views_of(toks@),
            -(i as int) <= depth <= i as int,
        decreases v.len() - i,
    {
        let c = v[i];
        proof {
            assert(gs.take(i as int + 1).drop_last() =~= gs.take(i as int));
            assert(gs.take(i as int + 1).last() == c);
        }
        let ghost pre = tok_scan(gs.take(i as int));
        if is_space(c) && !in_quote && depth == 0 {
            if cur.len() > 0 {
                let t = chars_string(&cur);
                let ghost ot = toks@;
                toks.push(t);
                cur = Vec::new();
                proof {
                    lemma_views_push(ot, t);
                }
            }
            escaped = false;
        } else if !escaped && c == '"' {
            in_quote = !in_quote;
            escaped = false;
        } else if !escaped && c == '(' {
            depth = depth + 1;
            cur.push(c);
            escaped = false;
        } else if !escaped && c == ')' {
            depth = depth - 1;
            cur.push(c);
            escaped = false;
        } else if !escaped && c == '\\' {
            escaped = true;
        } else {
            cur.push(c);
            escaped = false;
        }
        i = i + 1;
        proof {
            assert(tok_scan(gs.take(i as int)) == tok_acc_step(pre, c));
            assert(tok_scan(gs.take(i as int)).toks =~= views_of(toks@));
            assert(tok_scan(gs.take(i as int)).cur =~= cur@);
        }
    }
    proof {
        assert(gs.take(gs.len() as int) =~= gs);
    }
    if cur.len() > 0 {
        let t = chars_string(&cur);
        let ghost ot = toks@;
        toks.push(t);
        proof {
            lemma_views_push(ot, t);
        }
    }
    proof {
        assert(views_of(toks@) =~= spec_tokens(gs));
        if forall|j: int| 0 <= j < gs.len() ==> is_space_char(gs[j]) {
            lemma_tok_scan_spaces(gs);
        }
    }
    toks
}

} // verus!
