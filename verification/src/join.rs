//! Reassembly of a candidate path from colon-separated tokens.

use vstd::prelude::*;

verus! {

/// `segs` reassembled with `sep` inserted after every segment, including the
/// last; the empty sequence gives the empty string.  The caller is
/// responsible for trimming the final trailing separator.
pub open spec fn spec_join_sep(segs: Seq<Seq<char>>, sep: Seq<char>) -> Seq<char>
    decreases segs.len(),
{
    if segs.len() == 0 {
        Seq::empty()
    } else {
        spec_join_sep(segs.drop_last(), sep) + segs.last() + sep
    }
}

/// `toks` joined with a colon between consecutive tokens and nothing at
/// either end.
pub open spec fn join_colon(toks: Seq<Seq<char>>) -> Seq<char>
    decreases toks.len(),
{
    if toks.len() == 0 {
        Seq::empty()
    } else if toks.len() == 1 {
        toks[0]
    } else {
        join_colon(toks.drop_last()) + seq![':'] + toks.last()
    }
}

/// With at least one token, the joiner's output is the colon-joined tokens
/// followed by exactly one trailing colon.
pub proof fn lemma_join_sep_colon(toks: Seq<Seq<char>>)
    requires
        toks.len() >= 1,
    ensures
        spec_join_sep(toks, seq![':']) == join_colon(toks) + seq![':'],
    decreases toks.len(),
{
    assert(spec_join_sep(toks, seq![':']) == spec_join_sep(toks.drop_last(), seq![':']) + toks.last()
        + seq![':']);
    if toks.len() == 1 {
        assert(toks.drop_last().len() == 0);
        assert(spec_join_sep(toks.drop_last(), seq![':']) == Seq::<char>::empty());
        assert(join_colon(toks) == toks[0]);
        assert(spec_join_sep(toks, seq![':']) =~= join_colon(toks) + seq![':']);
    } else {
        lemma_join_sep_colon(toks.drop_last());
        assert(join_colon(toks) == join_colon(toks.drop_last()) + seq![':'] + toks.last());
        assert(spec_join_sep(toks, seq![':']) =~= join_colon(toks) + seq![':']);
    }
}

/// Appends every segment to `buf`, inserting the separator after each one,
/// including the last.  Joining no segments appends nothing; segment order
/// is preserved.  The caller trims the final trailing separator.
pub fn write_text_with_sep_to(segments: &Vec<String>, buf: &mut String, sep: &str)
    ensures
        final(buf)@ == old(buf)@ + spec_join_sep(segments.deep_view(), sep@),
{
    let ghost buf0: Seq<char> = buf@;
    let n = segments.len();
    let mut j: usize = 0;
    while j < n
        invariant
            j <= n,
            n == segments@.len(),
            buf@ == buf0 + spec_join_sep(segments.deep_view().take(j as int), sep@),
        decreases n - j,
    {
        buf.append(segments[j].as_str());
        buf.append(sep);
        j = j + 1;
        proof {
            let sv = segments.deep_view();
            assert(sv.take(j as int).drop_last() =~= sv.take(j - 1));
            assert(sv.take(j as int).last() == sv[j - 1]);
            assert(buf@ =~= buf0 + spec_join_sep(sv.take(j as int), sep@));
        }
    }
    proof {
        assert(segments.deep_view().take(n as int) =~= segments.deep_view());
    }
}

/// The first `k` tokens joined with colons: the candidate path left over
/// after trailing suffix tokens are stripped.
pub fn join_prefix(tokens: &Vec<String>, k: usize) -> (r: String)
    requires
        k <= tokens@.len(),
    ensures
        r@ == join_colon(tokens.deep_view().take(k as int)),
{
    let mut pre: Vec<String> = Vec::new();
    let mut j: usize = 0;
    while j < k
        invariant
            j <= k,
            k <= tokens@.len(),
            pre@ =~= tokens@.take(j as int),
        decreases k - j,
    {
        pre.push(tokens[j].clone());
        j = j + 1;
        proof {
            assert(pre@ =~= tokens@.take(j as int));
        }
    }
    proof {
        assert forall|i: int| 0 <= i < pre.deep_view().len() implies pre.deep_view()[i]
            == tokens.deep_view().take(k as int)[i] by {
            assert(pre@[i] == tokens@[i]);
        }
        assert(pre.deep_view() =~= tokens.deep_view().take(k as int));
    }
    let mut buf = String::new();
    write_text_with_sep_to(&pre, &mut buf, ":");
    if k == 0 {
        return buf;
    }
    proof {
        reveal_strlit(":");
        assert(":"@ =~= seq![':']);
        lemma_join_sep_colon(pre.deep_view());
    }
    let blen = buf.as_str().unicode_len();
    let trimmed = buf.as_str().substring_char(0, blen - 1);
    let r = trimmed.to_owned();
    proof {
        assert(r@ =~= join_colon(tokens.deep_view().take(k as int)));
    }
    r
}

} // verus!
