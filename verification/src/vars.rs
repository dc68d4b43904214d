//! Splitting an argument into literal runs and variable runs.
//!
//! A variable run begins at a top-level `$` and extends over the
//! following name characters, or over a whole `$(...)` group tracked by
//! a parenthesis depth counter.  The runs concatenate back to the
//! original argument; the expander then replaces each run that starts
//! with `$`.

use vstd::prelude::*;

use crate::chars::{alphanumeric_char, char_alphanumeric, chars_string, str_chars};
use crate::lex::{sum_lens, views_of};

verus! {

/// May `c` appear in a `$name` variable name?
pub open spec fn spec_is_var_name_char(c: char) -> bool {
    alphanumeric_char(c) || c == '_'
}

/// Decides whether `c` may appear in a `$name` variable name: letters,
/// numbers and the underscore.
pub fn is_var_name_char(c: char) -> (r: bool)
    ensures
        r == spec_is_var_name_char(c),
{
    char_alphanumeric(c) || c == '_'
}

/// Splitter accumulator: inside a variable name, the parenthesis depth,
/// the run being built, and the runs already finished.
pub struct VarAcc {
    pub in_var: bool,
    pub depth: int,
    pub cur: Seq<char>,
    pub parts: Seq<Seq<char>>,
}

pub open spec fn var_acc_init() -> VarAcc {
    VarAcc { in_var: false, depth: 0, cur: Seq::empty(), parts: Seq::empty() }
}

pub open spec fn flushed(parts: Seq<Seq<char>>, cur: Seq<char>) -> Seq<Seq<char>> {
    if cur.len() > 0 {
        parts.push(cur)
    } else {
        parts
    }
}

pub open spec fn var_acc_step(a: VarAcc, c: char) -> VarAcc {
    if c == '(' {
        VarAcc { depth: a.depth + 1, cur: a.cur.push(c), ..a }
    } else if c == ')' {
        if a.depth == 1 {
            VarAcc { depth: 0, cur: Seq::empty(), parts: a.parts.push(a.cur.push(c)), ..a }
        } else {
            VarAcc { depth: a.depth - 1, cur: a.cur.push(c), ..a }
        }
    } else if a.depth == 0 && c == '$' {
        VarAcc { in_var: true, cur: seq![c], parts: flushed(a.parts, a.cur), ..a }
    } else if a.depth == 0 && a.in_var && !spec_is_var_name_char(c) {
        VarAcc { in_var: false, cur: seq![c], parts: flushed(a.parts, a.cur), ..a }
    } else {
        VarAcc { cur: a.cur.push(c), ..a }
    }
}

pub open spec fn var_scan(s: Seq<char>) -> VarAcc
    decreases s.len(),
{
    if s.len() == 0 {
        var_acc_init()
    } else {
        var_acc_step(var_scan(s.drop_last()), s.last())
    }
}

/// The runs of `s`: finished runs plus the final partial run.
pub open spec fn spec_parts(s: Seq<char>) -> Seq<Seq<char>> {
    flushed(var_scan(s).parts, var_scan(s).cur)
}

/// Concatenation of a sequence of sequences.
pub open spec fn concat_all(ss: Seq<Seq<char>>) -> Seq<char>
    decreases ss.len(),
{
    if ss.len() == 0 {
        Seq::empty()
    } else {
        concat_all(ss.drop_last()) + ss.last()
    }
}

pub proof fn lemma_concat_push(ss: Seq<Seq<char>>, t: Seq<char>)
    ensures
        concat_all(ss.push(t)) == concat_all(ss) + t,
{
    assert(ss.push(t).drop_last() =~= ss);
    assert(ss.push(t).last() == t);
}

/// The runs concatenate back to the scanned text.
pub proof fn lemma_var_scan_concat(s: Seq<char>)
    ensures
        concat_all(var_scan(s).parts) + var_scan(s).cur =~= s,
    decreases s.len(),
{
    if s.len() > 0 {
        lemma_var_scan_concat(s.drop_last());
        let a = var_scan(s.drop_last());
        let c = s.last();
        let a2 = var_scan(s);
        assert(s =~= s.drop_last().push(c));
        if c == ')' && a.depth == 1 {
            lemma_concat_push(a.parts, a.cur.push(c));
            assert(concat_all(a2.parts) + a2.cur =~= (concat_all(a.parts) + a.cur).push(c));
        } else if c != '(' && a.depth == 0 && (c == '$' || (a.in_var && !spec_is_var_name_char(
            c,
        ))) {
            if a.cur.len() > 0 {
                lemma_concat_push(a.parts, a.cur);
            }
            assert(concat_all(a2.parts) + a2.cur =~= (concat_all(a.parts) + a.cur).push(c));
        } else {
            assert(a2.cur == a.cur.push(c) && a2.parts == a.parts);
            assert(concat_all(a2.parts) + a2.cur =~= (concat_all(a.parts) + a.cur).push(c));
        }
    }
}

/// The runs of `s` concatenate to `s`.
pub proof fn lemma_parts_concat(s: Seq<char>)
    ensures
        concat_all(spec_parts(s)) =~= s,
{
    lemma_var_scan_concat(s);
    let a = var_scan(s);
    if a.cur.len() > 0 {
        lemma_concat_push(a.parts, a.cur);
    }
}

pub proof fn lemma_concat_len(ss: Seq<Seq<char>>)
    ensures
        concat_all(ss).len() == sum_lens(ss),
    decreases ss.len(),
{
    if ss.len() > 0 {
        lemma_concat_len(ss.drop_last());
    }
}

pub proof fn lemma_sum_ge_elem(ss: Seq<Seq<char>>, i: int)
    requires
        0 <= i < ss.len(),
    ensures
        ss[i].len() <= sum_lens(ss),
    decreases ss.len(),
{
    if i < ss.len() - 1 {
        lemma_sum_ge_elem(ss.drop_last(), i);
        assert(ss.drop_last()[i] == ss[i]);
    }
}

/// Each run of `s` is no longer than `s` itself.
pub proof fn lemma_part_len(s: Seq<char>, i: int)
    requires
        0 <= i < spec_parts(s).len(),
    ensures
        spec_parts(s)[i].len() <= s.len(),
{
    lemma_parts_concat(s);
    lemma_concat_len(spec_parts(s));
    lemma_sum_ge_elem(spec_parts(s), i);
}

/// In a `$`-free argument no run begins with `$`, so expansion leaves
/// the argument unchanged.
pub proof fn lemma_no_dollar_parts(s: Seq<char>)
    requires
        forall|k: int| 0 <= k < s.len() ==> s[k] != '$',
    ensures
        forall|i: int|
            0 <= i < spec_parts(s).len() ==> spec_parts(s)[i].len() > 0 && spec_parts(
                s,
            )[i][0] != '$',
{
    lemma_var_scan_clean(s);
    let a = var_scan(s);
    assert forall|i: int| 0 <= i < spec_parts(s).len() implies spec_parts(s)[i].len() > 0
        && spec_parts(s)[i][0] != '$' by {
        if i < a.parts.len() {
            assert(spec_parts(s)[i] == a.parts[i]);
        } else {
            assert(spec_parts(s)[i] == a.cur);
        }
    }
}

/// Scan invariant behind `lemma_no_dollar_parts`.
pub proof fn lemma_var_scan_clean(s: Seq<char>)
    requires
        forall|k: int| 0 <= k < s.len() ==> s[k] != '$',
    ensures
        forall|i: int|
            0 <= i < var_scan(s).parts.len() ==> var_scan(s).parts[i].len() > 0 && var_scan(
                s,
            ).parts[i][0] != '$',
        var_scan(s).cur.len() > 0 ==> var_scan(s).cur[0] != '$',
    decreases s.len(),
{
    if s.len() > 0 {
        assert(forall|k: int| 0 <= k < s.len() - 1 ==> s.drop_last()[k] == s[k]);
        lemma_var_scan_clean(s.drop_last());
        let a = var_scan(s.drop_last());
        let c = s.last();
        assert(c != '$');
        let a2 = var_scan(s);
        assert forall|i: int| 0 <= i < a2.parts.len() implies a2.parts[i].len() > 0
            && a2.parts[i][0] != '$' by {
            if i < a.parts.len() {
                assert(a2.parts[i] == a.parts[i]);
            }
        }
    }
}

/// Splits one raw argument into literal and variable runs.
///
/// The runs are exactly `spec_parts` of the argument: they concatenate
/// back to it, and a run starting with `$` is a variable reference (a
/// name, a `$(...)` command substitution, or a bare `$`).
pub fn split_out_variables(arg: &str) -> (r: Vec<String>)
    ensures
        views_of(r@) == spec_parts(arg@),
{
    let v = str_chars(arg);
    let ghost gs = arg@;
    let mut parts: Vec<String> = Vec::new();
    let mut cur: Vec<char> = Vec::new();
    let mut in_var = false;
    let mut depth: i128 = 0;
    let mut i: usize = 0;
    while i < v.len()
        invariant
            v@ == gs,
            i <= gs.len(),
            var_scan(gs.take(i as int)).in_var == in_var,
            var_scan(gs.take(i as int)).depth == depth as int,
            var_scan(gs.take(i as int)).cur == cur@,
            var_scan(gs.take(i as int)).parts == views_of(parts@),
            -(i as int) <= depth <= i as int,
        decreases v.len() - i,
    {
        let c = v[i];
        proof {
            assert(gs.take(i as int + 1).drop_last() =~= gs.take(i as int));
            assert(gs.take(i as int + 1).last() == c);
        }
        let ghost pre = var_scan(gs.take(i as int));
        if c == '(' {
            depth = depth + 1;
            cur.push(c);
        } else if c == ')' {
            if depth == 1 {
                depth = 0;
                cur.push(c);
                let t = chars_string(&cur);
                let ghost op = parts@;
                parts.push(t);
                cur = Vec::new();
                proof {
                    crate::lex::lemma_views_push(op, t);
                }
            } else {
                depth = depth - 1;
                cur.push(c);
            }
        } else if depth == 0 && c == '$' {
            if cur.len() > 0 {
                let t = chars_string(&cur);
                let ghost op = parts@;
                parts.push(t);
                cur = Vec::new();
                proof {
                    crate::lex::lemma_views_push(op, t);
                }
            }
            in_var = true;
            cur.push(c);
        } else if depth == 0 && in_var && !is_var_name_char(c) {
            if cur.len() > 0 {
                let t = chars_string(&cur);
                let ghost op = parts@;
                parts.push(t);
                cur = Vec::new();
                proof {
                    crate::lex::lemma_views_push(op, t);
                }
            }
            in_var = false;
            cur.push(c);
        } else {
            cur.push(c);
        }
        i = i + 1;
        proof {
            assert(var_scan(gs.take(i as int)) == var_acc_step(pre, c));
            assert(var_scan(gs.take(i as int)).cur =~= cur@);
            assert(var_scan(gs.take(i as int)).parts =~= views_of(parts@));
        }
    }
    proof {
        assert(gs.take(gs.len() as int) =~= gs);
    }
    if cur.len() > 0 {
        let t = chars_string(&cur);
        let ghost op = parts@;
        parts.push(t);
        proof {
            crate::lex::lemma_views_push(op, t);
        }
    }
    proof {
        assert(views_of(parts@) =~= spec_parts(gs));
    }
    parts
}

} // verus!
