//! Splitting captured command output into display lines.  Lines are split
//! at `'\n'`; a `"\r\n"` ending loses its `'\r'`; every produced line,
//! including an unterminated last one, ends with `'\n'`.
use vstd::prelude::*;

use crate::chars::find_char;
use crate::chars::lemma_find_char;
use crate::chars::lemma_find_char_is;

verus! {

/// `t` without a trailing carriage return, if it has one.
pub open spec fn strip_cr(t: Seq<char>) -> Seq<char> {
    if t.len() > 0 && t[t.len() - 1] == '\r' {
        t.subrange(0, t.len() - 1)
    } else {
        t
    }
}

/// The display lines of a piece of captured text.
pub open spec fn split_lines_spec(s: Seq<char>) -> Seq<Seq<char>>
    decreases s.len(),
    via split_lines_spec_decreases
{
    if s.len() == 0 {
        Seq::empty()
    } else {
        let k = find_char(s, '\n');
        if k == s.len() {
            seq![s.push('\n')]
        } else {
            seq![strip_cr(s.subrange(0, k)).push('\n')] + split_lines_spec(
                s.subrange(k + 1, s.len() as int),
            )
        }
    }
}

#[via_fn]
proof fn split_lines_spec_decreases(s: Seq<char>) {
    lemma_find_char(s, '\n');
}

/// Splits captured output into lines, as the spec above describes.
pub fn split_lines(text: &str) -> (r: Vec<String>)
    ensures
        r.deep_view() == split_lines_spec(text@),
{
    let n = text.unicode_len();
    let mut out: Vec<String> = Vec::new();
    proof {
        assert(text@.subrange(0, n as int) =~= text@);
        assert(out.deep_view() + split_lines_spec(text@) =~~= split_lines_spec(text@));
    }
    let mut start: usize = 0;
    let mut i: usize = 0;
    while i < n
        invariant
            start <= i <= n,
            n == text@.len(),
            forall|k: int| start <= k < i ==> text@[k] != '\n',
            split_lines_spec(text@) == out.deep_view() + split_lines_spec(
                text@.subrange(start as int, n as int),
            ),
        decreases n - i,
    {
        let c = text.get_char(i);
        if c == '\n' {
            let ghost rest = text@.subrange(start as int, n as int);
            let line_end = if i > start && text.get_char(i - 1) == '\r' {
                i - 1
            } else {
                i
            };
            let piece = text.substring_char(start, line_end);
            let line = String::from_str(piece).concat("\n");
            proof {
                reveal_strlit("\n");
                assert forall|k: int| 0 <= k < i - start implies rest[k] != '\n' by {
                    assert(rest[k] == text@[start + k]);
                }
                lemma_find_char_is(rest, '\n', i - start);
                assert(rest.subrange(0, i - start) =~= text@.subrange(start as int, i as int));
                assert(strip_cr(text@.subrange(start as int, i as int)) =~= text@.subrange(
                    start as int,
                    line_end as int,
                ));
                assert(line@ =~= strip_cr(rest.subrange(0, i - start)).push('\n'));
                assert(rest.subrange(i - start + 1, rest.len() as int) =~= text@.subrange(
                    i + 1,
                    n as int,
                ));
            }
            let ghost out_pre = out.deep_view();
            out.push(line);
            proof {
                assert(out.deep_view() =~~= out_pre.push(line@));
                assert(split_lines_spec(text@) =~~= out.deep_view() + split_lines_spec(
                    text@.subrange(i + 1, n as int),
                ));
            }
            start = i + 1;
        }
        i = i + 1;
    }
    if start < n {
        let ghost rest = text@.subrange(start as int, n as int);
        let piece = text.substring_char(start, n);
        let line = String::from_str(piece).concat("\n");
        proof {
            reveal_strlit("\n");
            assert forall|k: int| 0 <= k < rest.len() implies rest[k] != '\n' by {
                assert(rest[k] == text@[start + k]);
            }
            lemma_find_char_is(rest, '\n', rest.len() as int);
            assert(line@ =~= rest.push('\n'));
        }
        let ghost out_pre = out.deep_view();
        out.push(line);
        proof {
            assert(out.deep_view() =~~= out_pre.push(line@));
            assert(split_lines_spec(rest) =~~= seq![line@]);
            assert(split_lines_spec(text@) =~~= out.deep_view());
        }
    } else {
        proof {
            assert(text@.subrange(start as int, n as int).len() == 0);
            assert(split_lines_spec(text@) =~~= out.deep_view());
        }
    }
    out
}

} // verus!
