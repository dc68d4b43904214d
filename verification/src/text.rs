//! Text measurement and padding helpers used by the console rendering.

use vstd::prelude::*;

use crate::chars::{is_space, is_space_char, str_chars};

verus! {

/// How many lines a run of `rem` characters takes when broken every
/// `width` columns, starting at column `col`: the character-wrap count
/// for text without white space.
pub open spec fn wrap_count(rem: nat, col: nat, width: nat) -> nat
    decreases rem,
{
    if rem == 0 {
        1
    } else if col == width {
        1 + wrap_count((rem - 1) as nat, 1, width)
    } else {
        wrap_count((rem - 1) as nat, col + 1, width)
    }
}

/// `s` holds no white space at all.
pub open spec fn no_space_chars(s: Seq<char>) -> bool {
    forall|k: int| 0 <= k < s.len() ==> !is_space_char(s[k])
}

/// Estimates how many lines `s` occupies when wrapped to `width`
/// columns: a word that would straddle the boundary moves whole to the
/// next line when an earlier word finished on its line, and is split
/// otherwise.  The count saturates at `usize::MAX`.
pub fn number_of_lines_when_broken(s: &str, width: usize) -> (r: usize)
    ensures
        r >= 1,
        s@.len() <= width ==> r == 1,
        no_space_chars(s@) && s@.len() < usize::MAX ==> r == wrap_count(
            s@.len() as nat,
            0,
            width as nat,
        ),
{
    let v = str_chars(s);
    let n = v.len();
    let ghost gs = s@;
    let mut lines: usize = 1;
    let mut col: usize = 0;
    let mut lws: usize = 0;
    let mut wsn: usize = 0;
    let mut in_word = false;
    let mut i: usize = 0;
    let ghost mut credit: int = 2;
    while i < n
        invariant
            v@ == gs,
            n == gs.len(),
            i <= n,
            lws <= i,
            lws <= n,
            col <= i + 1,
            i == 0 || lws < i,
            i == 0 ==> credit == 2 && !in_word && wsn == 0,
            lines >= 1,
            credit >= 0,
            wsn >= 1 ==> credit >= 1,
            in_word ==> credit >= 1,
            credit <= 1 && in_word ==> wsn == 0,
            gs.len() <= width ==> col == i && lines == 1,
            no_space_chars(gs) ==> wsn == 0 && lines <= i + 1 && (gs.len() < usize::MAX
                ==> lines - 1 + wrap_count((n - i) as nat, col as nat, width as nat)
                == wrap_count(n as nat, 0, width as nat)),
        decreases gs.len() - lws, credit, gs.len() - i,
    {
        let c = v[i];
        proof {
            if no_space_chars(gs) {
                assert(!is_space_char(gs[i as int]));
            }
        }
        if !in_word && !is_space(c) {
            in_word = true;
            lws = i;
            proof {
                credit = 2;
            }
        } else if in_word && is_space(c) {
            if wsn < usize::MAX {
                wsn = wsn + 1;
            }
            in_word = false;
        }
        if col == width {
            if wsn != 0 {
                // An earlier word finished on this line: the current
                // word moves whole to the next line.
                i = lws;
                proof {
                    credit = credit - 1;
                }
            }
            if lines < usize::MAX {
                lines = lines + 1;
            }
            col = 0;
            wsn = 0;
        }
        if col < usize::MAX {
            col = col + 1;
        }
        i = i + 1;
    }
    lines
}

/// Pads `s` on the right with spaces until it is exactly `width`
/// characters wide.
pub fn pad_end(s: &str, width: usize) -> (r: String)
    requires
        s@.len() <= width,
    ensures
        r@.len() == width,
        r@.subrange(0, s@.len() as int) == s@,
        forall|i: int| s@.len() <= i < width ==> r@[i] == ' ',
{
    let mut r = s.to_owned();
    let mut n = s.unicode_len();
    proof {
        reveal_strlit(" ");
    }
    while n < width
        invariant
            s@.len() <= n <= width,
            r@.len() == n,
            r@.subrange(0, s@.len() as int) == s@,
            forall|i: int| s@.len() <= i < n ==> r@[i] == ' ',
        decreases width - n,
    {
        r.append(" ");
        n = n + 1;
        proof {
            reveal_strlit(" ");
            assert(r@.subrange(0, s@.len() as int) == s@);
        }
    }
    proof {
        assert(r@.subrange(0, s@.len() as int) == s@);
    }
    r
}

} // verus!
