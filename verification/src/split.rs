//! Splitting a path's final component into colon-separated tokens.

use vstd::prelude::*;

verus! {

/// The colon-separated tokens of `s`, in order.  There is always at least
/// one token; consecutive colons give empty tokens.
pub open spec fn split_colon(s: Seq<char>) -> Seq<Seq<char>>
    decreases s.len(),
{
    if s.len() == 0 {
        seq![Seq::<char>::empty()]
    } else if s.last() == ':' {
        split_colon(s.drop_last()) + seq![Seq::<char>::empty()]
    } else {
        let r = split_colon(s.drop_last());
        r.drop_last() + seq![r.last().push(s.last())]
    }
}

/// Splitting always yields at least one token.
pub proof fn lemma_split_colon_len(s: Seq<char>)
    ensures
        split_colon(s).len() >= 1,
    decreases s.len(),
{
    if s.len() > 0 {
        lemma_split_colon_len(s.drop_last());
    }
}

/// Appends one token to the vector; the token sequence grows by the token's
/// characters.
pub(crate) fn push_str_token(toks: &mut Vec<String>, t: &str)
    ensures
        final(toks).deep_view() == old(toks).deep_view().push(t@),
{
    let ghost dv0 = toks.deep_view();
    toks.push(t.to_owned());
    proof {
        assert forall|m: int| 0 <= m < toks.deep_view().len() implies toks.deep_view()[m]
            == dv0.push(t@)[m] by {
            if m < dv0.len() {
                assert(toks@[m] == old(toks)@[m]);
                assert(dv0[m] == old(toks)@[m].deep_view());
            } else {
                assert(toks@[m]@ == t@);
            }
        }
        assert(toks.deep_view() =~= dv0.push(t@));
    }
}

/// Splits `s` at every colon, yielding the tokens in order.
pub fn split_colon_exec(s: &str) -> (toks: Vec<String>)
    ensures
        toks.deep_view() == split_colon(s@),
        toks@.len() >= 1,
{
    let len = s.unicode_len();
    let mut toks: Vec<String> = Vec::new();
    let mut start: usize = 0;
    let mut i: usize = 0;
    while i < len
        invariant
            start <= i <= len,
            len == s@.len(),
            toks.deep_view() =~~= split_colon(s@.take(i as int)).drop_last(),
            split_colon(s@.take(i as int)).last() =~= s@.subrange(start as int, i as int),
        decreases len - i,
    {
        let c = s.get_char(i);
        proof {
            lemma_split_colon_len(s@.take(i as int));
            assert(s@.take(i as int + 1).drop_last() =~= s@.take(i as int));
            assert(s@.take(i as int + 1).last() == s@[i as int]);
        }
        if c == ':' {
            let tok = s.substring_char(start, i);
            push_str_token(&mut toks, tok);
            start = i + 1;
            proof {
                assert(split_colon(s@.take(i as int + 1)) == split_colon(s@.take(i as int))
                    + seq![Seq::<char>::empty()]);
                assert(toks.deep_view() =~~= split_colon(s@.take(i as int + 1)).drop_last());
                assert(split_colon(s@.take(i as int + 1)).last() =~= s@.subrange(
                    start as int,
                    i as int + 1,
                ));
            }
        } else {
            proof {
                let r = split_colon(s@.take(i as int));
                assert(split_colon(s@.take(i as int + 1)) == r.drop_last() + seq![
                    r.last().push(s@[i as int]),
                ]);
                assert(toks.deep_view() =~~= split_colon(s@.take(i as int + 1)).drop_last());
                assert(split_colon(s@.take(i as int + 1)).last() =~= s@.subrange(
                    start as int,
                    i as int + 1,
                ));
            }
        }
        i = i + 1;
    }
    let tok = s.substring_char(start, len);
    push_str_token(&mut toks, tok);
    proof {
        lemma_split_colon_len(s@);
        assert(s@.take(len as int) =~= s@);
        assert(toks.deep_view() =~~= split_colon(s@));
    }
    toks
}

} // verus!
