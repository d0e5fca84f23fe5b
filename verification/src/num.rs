//! Decimal parsing of the numeric tokens that may trail a path argument,
//! and the standalone `+N` command-line convention.

use vstd::prelude::*;

verus! {

/// True of the ten ASCII digit characters.
pub open spec fn is_digit(c: char) -> bool {
    48 <= c as u32 <= 57
}

/// The numeric value of one ASCII digit character.
pub open spec fn digit_val(c: char) -> nat {
    (c as u32 - 48) as nat
}

/// True when every character of `s` is an ASCII digit.
pub open spec fn all_digits(s: Seq<char>) -> bool {
    forall|i: int| 0 <= i < s.len() ==> is_digit(#[trigger] s[i])
}

/// The value of a sequence of ASCII digits read in base ten.
pub open spec fn digits_val(s: Seq<char>) -> nat
    decreases s.len(),
{
    if s.len() == 0 {
        0
    } else {
        digits_val(s.drop_last()) * 10 + digit_val(s.last())
    }
}

/// What it means for a token to parse as a `usize`: an optional leading `+`,
/// then at least one ASCII digit, with a value that fits in `usize`.
pub open spec fn spec_parse_usize(s: Seq<char>) -> Option<usize> {
    let d = if s.len() > 0 && s[0] == '+' {
        s.drop_first()
    } else {
        s
    };
    if d.len() > 0 && all_digits(d) && digits_val(d) <= usize::MAX {
        Some(digits_val(d) as usize)
    } else {
        None
    }
}

/// A digit sequence is worth at least as much as any of its prefixes, so an
/// overflowing prefix means the whole token overflows.
proof fn lemma_digits_val_take_le(s: Seq<char>, k: int)
    requires
        0 <= k <= s.len(),
    ensures
        digits_val(s.take(k)) <= digits_val(s),
    decreases s.len(),
{
    if k == s.len() {
        assert(s.take(k) =~= s);
    } else {
        assert(s.drop_last().take(k) =~= s.take(k));
        lemma_digits_val_take_le(s.drop_last(), k);
    }
}

/// Parses a token as a non-negative integer, exactly as the resolver's
/// specification reads it: an optional leading `+`, then decimal digits.
/// Returns `None` on an empty remainder, a non-digit character, or overflow.
pub fn parse_usize(s: &str) -> (r: Option<usize>)
    ensures
        r == spec_parse_usize(s@),
{
    let len = s.unicode_len();
    let start: usize = if len > 0 && s.get_char(0) == '+' {
        1
    } else {
        0
    };
    let ghost d: Seq<char> = if s@.len() > 0 && s@[0] == '+' {
        s@.drop_first()
    } else {
        s@
    };
    assert(d.len() == len - start);
    if start == len {
        return None;
    }
    let mut acc: usize = 0;
    let mut i: usize = start;
    while i < len
        invariant
            start <= i <= len,
            len == s@.len(),
            start <= 1,
            start == 1 <==> (s@.len() > 0 && s@[0] == '+'),
            d == (if s@.len() > 0 && s@[0] == '+' {
                s@.drop_first()
            } else {
                s@
            }),
            d.len() == len - start,
            forall|j: int| 0 <= j < i - start ==> is_digit(#[trigger] d[j]),
            acc == digits_val(d.take(i - start)),
        decreases len - i,
    {
        let c = s.get_char(i);
        assert(c == d[i - start]);
        let v = c as u32;
        if v < 48 || v > 57 {
            assert(!is_digit(d[i - start]));
            return None;
        }
        let dig = (v - 48) as usize;
        let next = match acc.checked_mul(10) {
            Some(m) => m.checked_add(dig),
            None => None,
        };
        proof {
            assert(d.take(i - start + 1).drop_last() =~= d.take(i - start));
            assert(d.take(i - start + 1).last() == d[i - start]);
        }
        match next {
            Some(n2) => {
                acc = n2;
            },
            None => {
                proof {
                    lemma_digits_val_take_le(d, i - start + 1);
                }
                return None;
            },
        }
        i = i + 1;
    }
    proof {
        assert(d.take(len - start) =~= d);
    }
    Some(acc)
}

/// The meaning of the standalone `+N` convention: the token starts with `+`
/// and the remainder parses as a non-negative integer.
pub open spec fn spec_parse_plus_line(s: Seq<char>) -> Option<usize> {
    if s.len() > 0 && s[0] == '+' {
        spec_parse_usize(s.drop_first())
    } else {
        None
    }
}

/// Recognizes the editor convention of a standalone `+N` argument meaning
/// "open at line N".  A missing `+`, an empty or non-numeric remainder all
/// give the normal non-match result; the function never fails.
pub fn parse_vi_like_syntax(line: &str) -> (r: Option<usize>)
    ensures
        r == spec_parse_plus_line(line@),
{
    let len = line.unicode_len();
    if len > 0 && line.get_char(0) == '+' {
        let rest = line.substring_char(1, len);
        proof {
            assert(rest@ =~= line@.drop_first());
        }
        parse_usize(rest)
    } else {
        None
    }
}

} // verus!
