//! The competition clock: a start and a finish instant, and the
//! countdown text shown in the top bar.
//!
//! Instants are Unix timestamps in seconds; the host converts its
//! wall-clock values to and from this form.

use vstd::prelude::*;

verus! {

#[derive(PartialEq, Eq, Structural, Clone, Copy, Debug)]
pub enum ClockState {
    Before,
    During,
    After,
}

#[derive(Clone, Copy, Debug)]
pub struct Clock {
    /// When the competition starts, as Unix seconds.
    pub start: i64,
    /// When the competition finishes, as Unix seconds.
    pub finish: i64,
}

/// The decimal digit `d` as a character.
pub open spec fn digit_char(d: int) -> char {
    if d == 0 {
        '0'
    } else if d == 1 {
        '1'
    } else if d == 2 {
        '2'
    } else if d == 3 {
        '3'
    } else if d == 4 {
        '4'
    } else if d == 5 {
        '5'
    } else if d == 6 {
        '6'
    } else if d == 7 {
        '7'
    } else if d == 8 {
        '8'
    } else {
        '9'
    }
}

/// The decimal digits of `n`, most significant first.
pub open spec fn dec_digits(n: nat) -> Seq<char>
    decreases n,
{
    if n < 10 {
        seq![digit_char(n as int)]
    } else {
        dec_digits(n / 10).push(digit_char((n % 10) as int))
    }
}

/// The decimal digits of `n`, left-padded with `0` to two characters.
pub open spec fn two_digits(n: nat) -> Seq<char> {
    if n < 10 {
        seq!['0'].push(digit_char(n as int))
    } else {
        dec_digits(n)
    }
}

/// The countdown text for `t` seconds: minutes and seconds, each at
/// least two digits.
pub open spec fn mmss(t: nat) -> Seq<char> {
    two_digits(t / 60) + seq![':'] + two_digits((t % 60) as nat)
}

/// Renders `n` in decimal.
pub fn u64_digits(n: u64) -> (r: String)
    ensures
        r@ == dec_digits(n as nat),
    decreases n,
{
    let d: u64 = n % 10;
    let c: char = match d {
        0 => '0',
        1 => '1',
        2 => '2',
        3 => '3',
        4 => '4',
        5 => '5',
        6 => '6',
        7 => '7',
        8 => '8',
        _ => '9',
    };
    if n < 10 {
        let mut v: Vec<char> = Vec::new();
        v.push(c);
        let r = crate::chars::chars_string(&v);
        proof {
            assert(r@ =~= dec_digits(n as nat));
        }
        r
    } else {
        let mut s = u64_digits(n / 10);
        let mut v: Vec<char> = Vec::new();
        v.push(c);
        let tail = crate::chars::chars_string(&v);
        s.append(tail.as_str());
        proof {
            assert(s@ =~= dec_digits(n as nat));
        }
        s
    }
}

/// Renders `n` in decimal, left-padded with `0` to two characters.
pub fn u64_two_digits(n: u64) -> (r: String)
    ensures
        r@ == two_digits(n as nat),
{
    if n < 10 {
        let mut s = "0".to_owned();
        let d = u64_digits(n);
        s.append(d.as_str());
        proof {
            reveal_strlit("0");
            assert(s@ =~= two_digits(n as nat));
        }
        s
    } else {
        u64_digits(n)
    }
}

impl Clock {
    /// Whether the competition has yet to start, is running, or has
    /// ended at the instant `now`.
    pub fn state(&self, now: i64) -> (r: ClockState)
        ensures
            r == (if self.start > now {
                ClockState::Before
            } else if self.finish < now {
                ClockState::After
            } else {
                ClockState::During
            }),
    {
        if self.start > now {
            ClockState::Before
        } else if self.finish < now {
            ClockState::After
        } else {
            ClockState::During
        }
    }

    /// Seconds until the next state change at the instant `now`: until
    /// the start before the competition, until the finish during it,
    /// zero after it.  Kept within `i64` by saturation.
    pub fn time_until_next_state(&self, now: i64) -> (r: i64)
        ensures
            self.start > now ==> r == clip_i64(self.start - now),
            self.start <= now && self.finish >= now ==> r == clip_i64(self.finish - now),
            self.start <= now && self.finish < now ==> r == 0,
            r >= 0,
    {
        if self.start > now {
            sat_sub(self.start, now)
        } else if self.finish < now {
            0
        } else {
            sat_sub(self.finish, now)
        }
    }

    /// The top-bar text at the instant `now`: `Starts in MM:SS`,
    /// `Ends in MM:SS`, or `Ended`.
    pub fn countdown_string(&self, now: i64) -> (r: String)
        ensures
            self.start > now ==> r@ == "Starts in "@ + mmss(clip_i64(self.start - now) as nat),
            self.start <= now && self.finish >= now ==> r@ == "Ends in "@ + mmss(
                clip_i64(self.finish - now) as nat,
            ),
            self.start <= now && self.finish < now ==> r@ == "Ended"@,
    {
        if self.start > now {
            let t = sat_sub(self.start, now);
            let time = mmss_string(t as u64);
            let mut out = "Starts in ".to_owned();
            out.append(time.as_str());
            out
        } else if self.finish < now {
            "Ended".to_owned()
        } else {
            let t = sat_sub(self.finish, now);
            let time = mmss_string(t as u64);
            let mut out = "Ends in ".to_owned();
            out.append(time.as_str());
            out
        }
    }
}

/// `v` brought into `i64` range.
pub open spec fn clip_i64(v: int) -> int {
    if v > i64::MAX {
        i64::MAX as int
    } else if v < i64::MIN {
        i64::MIN as int
    } else {
        v
    }
}

/// `a - b`, saturating at the `i64` bounds.
fn sat_sub(a: i64, b: i64) -> (r: i64)
    ensures
        r == clip_i64(a - b),
{
    let wide: i128 = a as i128 - b as i128;
    if wide > i64::MAX as i128 {
        i64::MAX
    } else if wide < i64::MIN as i128 {
        i64::MIN
    } else {
        wide as i64
    }
}

/// The countdown text for `t` seconds.
fn mmss_string(t: u64) -> (r: String)
    ensures
        r@ == mmss(t as nat),
{
    let mut out = u64_two_digits(t / 60);
    let mut v: Vec<char> = Vec::new();
    v.push(':');
    let colon = crate::chars::chars_string(&v);
    out.append(colon.as_str());
    let secs = u64_two_digits(t % 60);
    out.append(secs.as_str());
    proof {
        assert(out@ =~= mmss(t as nat));
    }
    out
}

} // verus!
