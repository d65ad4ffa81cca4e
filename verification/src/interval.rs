//! The refresh interval: parsing the `--interval` argument from a decimal
//! number of seconds into nanoseconds, and the scheduler that decides when
//! the watched command is re-run.
//!
//! The elapsed time is compared against the interval as one total duration
//! in nanoseconds, never as separately-thresholded seconds and sub-second
//! parts.
use vstd::prelude::*;

use crate::chars::find_char;
use crate::chars::is_space;
use crate::chars::lead_spaces;
use crate::chars::lemma_find_char_is;
use crate::chars::lemma_lead_spaces_is;
use crate::chars::lemma_trail_spaces_is;
use crate::chars::lemma_trim_bounds;
use crate::chars::trail_spaces;
use crate::chars::trimmed;
use crate::error::RatchError;

verus! {

pub open spec fn is_digit(c: char) -> bool {
    48 <= c as int <= 57
}

pub open spec fn digit_of(c: char) -> int {
    c as int - 48
}

pub open spec fn all_digits(s: Seq<char>) -> bool {
    forall|i: int| 0 <= i < s.len() ==> is_digit(#[trigger] s[i])
}

/// The number denoted by a sequence of decimal digits, most significant
/// first.
pub open spec fn digits_val(s: Seq<char>) -> int
    decreases s.len(),
{
    if s.len() == 0 {
        0
    } else {
        digits_val(s.subrange(0, s.len() - 1)) * 10 + digit_of(s[s.len() - 1])
    }
}

pub open spec fn pow10(n: nat) -> int
    decreases n,
{
    if n == 0 {
        1
    } else {
        10 * pow10((n - 1) as nat)
    }
}

pub proof fn lemma_digits_val_bounds(s: Seq<char>)
    requires
        all_digits(s),
    ensures
        0 <= digits_val(s) < pow10(s.len()),
    decreases s.len(),
{
    if s.len() != 0 {
        lemma_digits_val_bounds(s.subrange(0, s.len() - 1));
    }
}

pub proof fn lemma_digits_val_push(s: Seq<char>, c: char)
    ensures
        digits_val(s.push(c)) == digits_val(s) * 10 + digit_of(c),
{
    assert(s.push(c).subrange(0, s.push(c).len() - 1) =~= s);
}

/// A prefix of a digit string denotes no more than the whole string.
pub proof fn lemma_digits_val_prefix(s: Seq<char>, j: int)
    requires
        all_digits(s),
        0 <= j <= s.len(),
    ensures
        digits_val(s.subrange(0, j)) <= digits_val(s),
    decreases s.len(),
{
    if j == s.len() {
        assert(s.subrange(0, j) =~= s);
    } else {
        let head = s.subrange(0, s.len() - 1);
        assert(head.subrange(0, j) =~= s.subrange(0, j));
        lemma_digits_val_prefix(head, j);
        lemma_digits_val_bounds(head);
    }
}

pub proof fn lemma_pow10_add(a: nat, b: nat)
    ensures
        pow10(a + b) == pow10(a) * pow10(b),
    decreases a,
{
    if a != 0 {
        lemma_pow10_add((a - 1) as nat, b);
        assert(10 * (pow10((a - 1) as nat) * pow10(b)) == (10 * pow10((a - 1) as nat)) * pow10(
            b,
        )) by (nonlinear_arith);
    }
}

/// Whether a trimmed argument is a decimal number of seconds: digits,
/// with at most one point, and at least one digit in all.
pub open spec fn valid_interval(t: Seq<char>) -> bool {
    let j = find_char(t, '.');
    &&& all_digits(t.subrange(0, j))
    &&& (j == t.len() || all_digits(t.subrange(j + 1, t.len() as int)))
    &&& (if j == t.len() {
        j >= 1
    } else {
        t.len() >= 2
    })
}

/// The duration denoted by a valid trimmed argument, in nanoseconds;
/// fractional digits beyond the ninth are truncated.
pub open spec fn interval_nanos(t: Seq<char>) -> int {
    let j = find_char(t, '.');
    let ip = t.subrange(0, j);
    let fp = if j == t.len() {
        Seq::<char>::empty()
    } else {
        t.subrange(j + 1, t.len() as int)
    };
    let m = if fp.len() <= 9 {
        fp.len() as int
    } else {
        9
    };
    digits_val(ip) * 1_000_000_000 + digits_val(fp.subrange(0, m)) * pow10((9 - m) as nat)
}

/// `interval_nanos`, saturated into `u64`.
pub open spec fn clamped_interval_nanos(t: Seq<char>) -> int {
    if interval_nanos(t) > u64::MAX {
        u64::MAX as int
    } else {
        interval_nanos(t)
    }
}

/// The decimal value of a character, if it is a digit.
fn digit_value(c: char) -> (r: Option<u64>)
    ensures
        r is Some <==> is_digit(c),
        is_digit(c) ==> r == Some(digit_of(c) as u64),
{
    let u = c as u32;
    if 48 <= u && u <= 57 {
        Some((u - 48) as u64)
    } else {
        None
    }
}

fn is_space_char(c: char) -> (r: bool)
    ensures
        r == is_space(c),
{
    c == ' ' || c == '\t' || c == '\n' || c == '\r'
}

/// `10^e` for `e <= 9`.
fn pow10_u64(e: usize) -> (r: u64)
    requires
        e <= 9,
    ensures
        r as int == pow10(e as nat),
{
    proof {
        reveal_with_fuel(pow10, 11);
    }
    let mut r: u64 = 1;
    let mut k: usize = 0;
    while k < e
        invariant
            k <= e <= 9,
            r as int == pow10(k as nat),
        decreases e - k,
    {
        proof {
            reveal_with_fuel(pow10, 11);
        }
        r = r * 10;
        k = k + 1;
    }
    r
}

/// Parses the `--interval` argument: a decimal number of seconds, with
/// surrounding whitespace ignored.  Returns the interval in nanoseconds,
/// saturated into `u64`; a missing or malformed argument is a
/// `ParseError`.
#[verifier::rlimit(80)]
pub fn parse_interval(interval: Option<&str>) -> (r: Result<u64, RatchError>)
    ensures
        match interval {
            None => r matches Err(RatchError::ParseError(_)),
            Some(s) => {
                if valid_interval(trimmed(s@)) {
                    r matches Ok(v) && v as int == clamped_interval_nanos(trimmed(s@))
                } else {
                    r matches Err(RatchError::ParseError(_))
                }
            },
        },
{
    let s = match interval {
        Some(s) => s,
        None => {
            return Err(RatchError::ParseError(String::from_str("interval value not found")));
        },
    };
    let n = s.unicode_len();

    // Trim surrounding whitespace.
    let mut start: usize = 0;
    while start < n && is_space_char(s.get_char(start))
        invariant
            start <= n,
            n == s@.len(),
            forall|i: int| 0 <= i < start ==> is_space(s@[i]),
        decreases n - start,
    {
        start = start + 1;
    }
    proof {
        lemma_lead_spaces_is(s@, start as int);
    }
    let mut end: usize = n;
    while end > start && is_space_char(s.get_char(end - 1))
        invariant
            start <= end <= n,
            n == s@.len(),
            start == lead_spaces(s@),
            forall|i: int| end <= i < n ==> is_space(s@[i]),
            start < n ==> !is_space(s@[start as int]),
        decreases end,
    {
        end = end - 1;
    }
    let ghost t = trimmed(s@);
    proof {
        if start == n {
            assert(end == n || !is_space(s@[start as int]));
            assert(end == n);
            assert(t =~= s@.subrange(start as int, end as int));
        } else {
            lemma_trim_bounds(s@);
            lemma_trail_spaces_is(s@, (n - end) as int);
            assert(t == s@.subrange(start as int, end as int));
        }
    }
    assert(t.len() == end - start);
    assert(forall|i: int| 0 <= i < t.len() ==> t[i] == s@[start + i]);

    // Find the decimal point.
    let mut dot: usize = start;
    while dot < end && s.get_char(dot) != '.'
        invariant
            start <= dot <= end <= n,
            n == s@.len(),
            forall|i: int| start <= i < dot ==> s@[i] != '.',
        decreases end - dot,
    {
        dot = dot + 1;
    }
    proof {
        lemma_find_char_is(t, '.', dot - start);
    }

    // The integer part: digits before the point, accumulated with
    // saturation.
    let mut secs: u64 = 0;
    let mut over: bool = false;
    let mut i: usize = start;
    while i < dot
        invariant
            start <= i <= dot <= end <= n,
            n == s@.len(),
            interval == Some(s),
            t == trimmed(s@),
            t.len() == end - start,
            find_char(t, '.') == dot - start,
            forall|k: int| 0 <= k < t.len() ==> t[k] == s@[start + k],
            all_digits(t.subrange(0, i - start)),
            !over ==> secs as int == digits_val(t.subrange(0, i - start)),
            over ==> digits_val(t.subrange(0, i - start)) > u64::MAX,
        decreases dot - i,
    {
        let ghost pre = t.subrange(0, i - start);
        let d = match digit_value(s.get_char(i)) {
            Some(d) => d,
            None => {
                proof {
                    assert(!is_digit(t[i - start]));
                    assert(t.subrange(0, dot - start)[i - start] == t[i - start]);
                    assert(!valid_interval(t));
                }
                return Err(
                    RatchError::ParseError(
                        String::from_str("could not take `").concat(s).concat(
                            "` as a decimal number of seconds",
                        ),
                    ),
                );
            },
        };
        proof {
            assert(t.subrange(0, i + 1 - start) =~= pre.push(t[i - start]));
            lemma_digits_val_push(pre, t[i - start]);
        }
        if !over {
            match secs.checked_mul(10) {
                Some(x) => match x.checked_add(d) {
                    Some(y) => {
                        secs = y;
                    },
                    None => {
                        over = true;
                    },
                },
                None => {
                    proof {
                        assert(digits_val(pre) * 10 + digit_of(t[i - start]) > u64::MAX);
                    }
                    over = true;
                },
            }
        } else {
            proof {
                lemma_digits_val_bounds(pre);
            }
        }
        i = i + 1;
    }

    // The fractional part: digits after the point; only the first nine
    // carry weight.
    let mut frac: u64 = 0;
    let mut m: usize = 0;
    let ghost fl = if dot == end {
        0int
    } else {
        end - dot - 1
    };
    let ghost fp = if dot == end {
        Seq::<char>::empty()
    } else {
        t.subrange(dot - start + 1, t.len() as int)
    };
    assert(fp.len() == fl);
    assert(forall|k: int| 0 <= k < fp.len() ==> fp[k] == s@[dot + 1 + k]);
    if dot < end {
        let mut j: usize = dot + 1;
        while j < end
            invariant
                start <= dot < end,
                dot + 1 <= j <= end <= n,
                n == s@.len(),
                interval == Some(s),
                t == trimmed(s@),
                t.len() == end - start,
                find_char(t, '.') == dot - start,
                fp == t.subrange(dot - start + 1, t.len() as int),
                fp.len() == end - dot - 1,
                forall|k: int| 0 <= k < fp.len() ==> fp[k] == s@[dot + 1 + k],
                all_digits(fp.subrange(0, j - dot - 1)),
                m == if j - dot - 1 <= 9 {
                    j - dot - 1
                } else {
                    9
                },
                frac as int == digits_val(fp.subrange(0, m as int)),
                (frac as int) < pow10(m as nat),
            decreases end - j,
        {
            let ghost fpre = fp.subrange(0, j - dot - 1);
            let d = match digit_value(s.get_char(j)) {
                Some(d) => d,
                None => {
                    proof {
                        assert(!is_digit(fp[j - dot - 1]));
                        assert(t.subrange(dot - start + 1, t.len() as int)[j - dot - 1] == fp[j
                            - dot - 1]);
                        assert(!valid_interval(t));
                    }
                    return Err(
                        RatchError::ParseError(
                            String::from_str("could not take `").concat(s).concat(
                                "` as a decimal number of seconds",
                            ),
                        ),
                    );
                },
            };
            proof {
                assert(fp.subrange(0, j - dot) =~= fpre.push(fp[j - dot - 1]));
                lemma_digits_val_push(fpre, fp[j - dot - 1]);
                reveal_with_fuel(pow10, 11);
            }
            if m < 9 {
                proof {
                    assert(fp.subrange(0, m as int) =~= fpre.subrange(0, m as int));
                    assert(fpre =~= fp.subrange(0, m as int));
                    assert(frac as int * 10 + d < pow10((m + 1) as nat));
                }
                frac = frac * 10 + d;
                m = m + 1;
            } else {
                proof {
                    assert(fp.subrange(0, m as int) =~= fp.subrange(0, j - dot).subrange(
                        0,
                        m as int,
                    ));
                }
            }
            j = j + 1;
        }
    }

    // At least one digit in all.
    if dot == start && (dot == end || dot + 1 == end) {
        return Err(
            RatchError::ParseError(
                String::from_str("could not take `").concat(s).concat(
                    "` as a decimal number of seconds",
                ),
            ),
        );
    }
    proof {
        assert(fp.subrange(0, fp.len() as int) =~= fp);
        assert(valid_interval(t));
    }

    let ghost ip = t.subrange(0, dot - start);
    let ghost mm = if fp.len() <= 9 {
        fp.len() as int
    } else {
        9
    };
    assert(mm == m as int);
    assert(interval_nanos(t) == digits_val(ip) * 1_000_000_000 + digits_val(
        fp.subrange(0, m as int),
    ) * pow10((9 - m) as nat));

    // Scale the fractional digits up to nanoseconds.
    let scale = pow10_u64(9 - m);
    proof {
        lemma_pow10_add(m as nat, (9 - m) as nat);
        reveal_with_fuel(pow10, 11);
        assert(frac as int * (scale as int) <= (pow10(m as nat) - 1) * pow10((9 - m) as nat))
            by (nonlinear_arith)
            requires
                (frac as int) < pow10(m as nat),
                scale as int == pow10((9 - m) as nat),
                scale as int >= 1,
        ;
        assert((pow10(m as nat) - 1) * pow10((9 - m) as nat) == pow10(m as nat) * pow10(
            (9 - m) as nat,
        ) - pow10((9 - m) as nat)) by (nonlinear_arith);
        assert(frac as int * (scale as int) < 1_000_000_000);
        assert(frac as int * (scale as int) >= 0) by (nonlinear_arith)
            requires
                frac as int >= 0,
                scale as int >= 1,
        ;
    }
    let fnanos: u64 = frac * scale;

    if over {
        proof {
            lemma_digits_val_prefix(ip, i - start);
            assert(digits_val(ip) * 1_000_000_000 >= digits_val(ip) * 1) by (nonlinear_arith)
                requires
                    digits_val(ip) > 0,
            ;
            lemma_digits_val_bounds(fp.subrange(0, m as int));
        }
        return Ok(u64::MAX);
    }
    proof {
        lemma_digits_val_bounds(fp.subrange(0, m as int));
        assert(digits_val(fp.subrange(0, m as int)) * pow10((9 - m) as nat) == fnanos as int);
    }
    match secs.checked_mul(1_000_000_000) {
        Some(x) => match x.checked_add(fnanos) {
            Some(total) => Ok(total),
            None => Ok(u64::MAX),
        },
        None => {
            proof {
                assert(secs as int * 1_000_000_000 > u64::MAX);
            }
            Ok(u64::MAX)
        },
    }
}

/// Whether the elapsed time since the last trigger has reached the
/// interval, compared as one total duration.
pub open spec fn due_spec(now: u128, last_trigger: u128, interval_nanos: u64) -> bool {
    now - last_trigger >= interval_nanos
}

/// Decides whether a new run is due: true iff the time elapsed between
/// `last_trigger` and `now` is at least `interval_nanos`.
pub fn due(now: u128, last_trigger: u128, interval_nanos: u64) -> (r: bool)
    ensures
        r == due_spec(now, last_trigger, interval_nanos),
{
    now >= last_trigger && now - last_trigger >= interval_nanos as u128
}

/// Tracks the last trigger time and decides each tick whether to dispatch
/// a new run.  Times are nanoseconds of a monotonic clock.
pub struct Scheduler {
    pub interval_nanos: u64,
    pub last_trigger: u128,
}

impl Scheduler {
    /// A scheduler that will first fire one full interval after `now`.
    pub fn new(interval_nanos: u64, now: u128) -> (s: Scheduler)
        ensures
            s.interval_nanos == interval_nanos,
            s.last_trigger == now,
    {
        Scheduler { interval_nanos, last_trigger: now }
    }

    /// Checks whether a run is due at `now`; if so, records `now` as the
    /// new last trigger time.
    pub fn check(&mut self, now: u128) -> (fired: bool)
        ensures
            fired == due_spec(now, old(self).last_trigger, old(self).interval_nanos),
            final(self).interval_nanos == old(self).interval_nanos,
            final(self).last_trigger == if fired {
                now
            } else {
                old(self).last_trigger
            },
    {
        let fired = due(now, self.last_trigger, self.interval_nanos);
        if fired {
            self.last_trigger = now;
        }
        fired
    }
}

} // verus!
