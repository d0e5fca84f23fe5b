//! The path/line/column resolver: decides whether a raw argument is a
//! literal path, a path with a trailing line number, or a path with trailing
//! line and column numbers, using existence on disk as the oracle.

use crate::join::join_colon;
use crate::join::join_prefix;
use crate::location::LineCol;
use crate::location::Loc;
use crate::location::PathObject;
use crate::location::loc;
use crate::num::parse_usize;
use crate::num::spec_parse_usize;
use crate::probe::last_normal_component;
use crate::probe::path_is_file;
use crate::split::split_colon;
use crate::split::split_colon_exec;
use vstd::prelude::*;

verus! {

/// The ordered list of guarded interpretations of the argument `raw` whose
/// extracted final component is `fc` (`None` when no ordinary final
/// component exists).  Each entry is taken only if its path exists as a
/// file, first hit wins; when none exists the result is [`spec_fallback`].
pub open spec fn spec_candidates(raw: Seq<char>, fc: Option<Seq<char>>) -> Seq<Loc> {
    match fc {
        None => seq![loc(raw, None)],
        Some(f) => {
            let toks = split_colon(f);
            let n = toks.len() as int;
            match spec_parse_usize(toks.last()) {
                None => seq![loc(raw, None)],
                Some(b) => if n == 1 {
                    seq![loc(raw, None)]
                } else {
                    match spec_parse_usize(toks[n - 2]) {
                        Some(a) => seq![
                            loc(raw, None),
                            loc(
                                join_colon(toks.take(n - 2)),
                                Some(LineCol { line: a, column: b }),
                            ),
                            loc(
                                join_colon(toks.take(n - 1)),
                                Some(LineCol { line: b, column: 1 }),
                            ),
                            loc(f, None),
                        ],
                        None => seq![
                            loc(raw, None),
                            loc(
                                join_colon(toks.take(n - 1)),
                                Some(LineCol { line: b, column: 1 }),
                            ),
                            loc(f, None),
                        ],
                    }
                },
            }
        },
    }
}

/// What the resolver returns when no guarded candidate exists on disk: the
/// argument itself when no final component could be extracted or when its
/// rightmost token is not numeric; otherwise the final component, colons and
/// all — except that a final component that is one single numeric token
/// leaves the empty path behind once its suffix reading is stripped.
pub open spec fn spec_fallback(raw: Seq<char>, fc: Option<Seq<char>>) -> Loc {
    match fc {
        None => loc(raw, None),
        Some(f) => {
            let toks = split_colon(f);
            match spec_parse_usize(toks.last()) {
                None => loc(f, None),
                Some(_) => if toks.len() == 1 {
                    loc(Seq::empty(), None)
                } else {
                    loc(f, None)
                },
            }
        },
    }
}

/// The first candidate whose existence answer is true; `fallback` when none
/// is.  `ex` carries one answer per candidate, in candidate order.
pub open spec fn first_hit(cands: Seq<Loc>, ex: Seq<bool>, fallback: Loc) -> Loc
    decreases cands.len(),
{
    if cands.len() == 0 {
        fallback
    } else if ex.first() {
        cands.first()
    } else {
        first_hit(cands.drop_first(), ex.drop_first(), fallback)
    }
}

/// The resolver's complete policy: the result for argument `raw`, extracted
/// final component `fc`, and existence answers `ex`.
pub open spec fn spec_resolve(raw: Seq<char>, fc: Option<Seq<char>>, ex: Seq<bool>) -> Loc {
    first_hit(spec_candidates(raw, fc), ex, spec_fallback(raw, fc))
}

/// An argument that itself names an existing file resolves to that path,
/// verbatim and with no position, whatever colons or numeric-looking
/// suffixes it contains: the exact match outranks every other
/// interpretation.
pub proof fn lemma_resolve_existing(raw: Seq<char>, fc: Option<Seq<char>>, ex: Seq<bool>)
    requires
        ex.len() == spec_candidates(raw, fc).len(),
        ex[0],
    ensures
        spec_resolve(raw, fc, ex) == loc(raw, None),
{
    assert(spec_candidates(raw, fc).len() >= 1);
    assert(spec_candidates(raw, fc)[0] == loc(raw, None));
    assert(ex.first());
}

/// A hit is a hit: when some existence answer is true, the result is one of
/// the candidates, namely the first one answered true.
proof fn lemma_first_hit_cases(cands: Seq<Loc>, ex: Seq<bool>, fallback: Loc)
    requires
        ex.len() == cands.len(),
    ensures
        first_hit(cands, ex, fallback) == fallback || exists|i: int|
            0 <= i < cands.len() && ex[i] && cands[i] == first_hit(cands, ex, fallback),
    decreases cands.len(),
{
    if cands.len() > 0 {
        if ex.first() {
            assert(ex[0] && cands[0] == first_hit(cands, ex, fallback));
        } else {
            lemma_first_hit_cases(cands.drop_first(), ex.drop_first(), fallback);
            let rest = first_hit(cands.drop_first(), ex.drop_first(), fallback);
            if rest != fallback {
                let i = choose|i: int|
                    0 <= i < cands.drop_first().len() && ex.drop_first()[i] && cands.drop_first()[i]
                        == rest;
                assert(ex[i + 1] && cands[i + 1] == first_hit(cands, ex, fallback));
            }
        }
    }
}

/// The resolver never reports a position it did not verify: a result that
/// carries a line/column is a guarded candidate whose path was confirmed to
/// exist as a file, since every fallback is position-free.
pub proof fn lemma_position_needs_hit(raw: Seq<char>, fc: Option<Seq<char>>, ex: Seq<bool>)
    requires
        ex.len() == spec_candidates(raw, fc).len(),
        spec_resolve(raw, fc, ex).linecol is Some,
    ensures
        exists|i: int|
            0 <= i < ex.len() && ex[i] && spec_candidates(raw, fc)[i] == spec_resolve(raw, fc, ex),
{
    assert(spec_fallback(raw, fc).linecol is None);
    lemma_first_hit_cases(spec_candidates(raw, fc), ex, spec_fallback(raw, fc));
}

/// The view of an optional final component.
pub open spec fn opt_str_view(fc: Option<&str>) -> Option<Seq<char>> {
    match fc {
        Some(s) => Some(s@),
        None => None,
    }
}

/// Appends one candidate; the candidate sequence grows by its model value.
fn push_loc(cands: &mut Vec<PathObject>, p: PathObject)
    ensures
        final(cands).deep_view() == old(cands).deep_view().push(p@),
{
    let ghost dv0 = cands.deep_view();
    let ghost pv = p@;
    cands.push(p);
    proof {
        assert forall|m: int| 0 <= m < cands.deep_view().len() implies cands.deep_view()[m]
            == dv0.push(pv)[m] by {
            if m < dv0.len() {
                assert(cands@[m] == old(cands)@[m]);
                assert(dv0[m] == old(cands)@[m].deep_view());
            } else {
                assert(cands@[m]@ == pv);
            }
        }
        assert(cands.deep_view() =~= dv0.push(pv));
    }
}

/// Builds the resolver's ordered candidate list and its fallback for the
/// argument `raw` with extracted final component `fc`.  This is the whole
/// disambiguation policy with only the existence answers left open, so it is
/// exact: the list is [`spec_candidates`] and the fallback [`spec_fallback`].
pub fn resolve_candidates(raw: &str, fc: Option<&str>) -> (r: (Vec<PathObject>, PathObject))
    ensures
        r.0.deep_view() == spec_candidates(raw@, opt_str_view(fc)),
        r.1@ == spec_fallback(raw@, opt_str_view(fc)),
{
    let mut cands: Vec<PathObject> = Vec::new();
    push_loc(&mut cands, PathObject::from_path(raw.to_owned()));
    match fc {
        None => {
            let fb = PathObject::from_path(raw.to_owned());
            proof {
                assert(cands.deep_view() =~= spec_candidates(raw@, opt_str_view(fc)));
            }
            (cands, fb)
        },
        Some(f) => {
            let toks = split_colon_exec(f);
            let ghost tv = split_colon(f@);
            let n = toks.len();
            proof {
                assert(toks@[n - 1].deep_view() == tv[n - 1]);
                assert(tv[n - 1] == tv.last());
            }
            let tn = parse_usize(toks[n - 1].as_str());
            match tn {
                None => {
                    let fb = PathObject::from_path(f.to_owned());
                    proof {
                        assert(cands.deep_view() =~= spec_candidates(raw@, opt_str_view(fc)));
                    }
                    (cands, fb)
                },
                Some(b) => {
                    if n == 1 {
                        let fb = PathObject::from_path(String::new());
                        proof {
                            assert(cands.deep_view() =~= spec_candidates(raw@, opt_str_view(fc)));
                        }
                        (cands, fb)
                    } else {
                        proof {
                            assert(toks@[n - 2].deep_view() == tv[n - 2]);
                        }
                        let tn1 = parse_usize(toks[n - 2].as_str());
                        match tn1 {
                            Some(a) => {
                                let left2 = join_prefix(&toks, n - 2);
                                let left1 = join_prefix(&toks, n - 1);
                                push_loc(&mut cands, PathObject::from(left2, a, b));
                                push_loc(&mut cands, PathObject::from(left1, b, 1));
                                push_loc(&mut cands, PathObject::from_path(f.to_owned()));
                                let fb = PathObject::from_path(f.to_owned());
                                proof {
                                    assert(cands.deep_view() =~= spec_candidates(
                                        raw@,
                                        opt_str_view(fc),
                                    ));
                                }
                                (cands, fb)
                            },
                            None => {
                                let left1 = join_prefix(&toks, n - 1);
                                push_loc(&mut cands, PathObject::from(left1, b, 1));
                                push_loc(&mut cands, PathObject::from_path(f.to_owned()));
                                let fb = PathObject::from_path(f.to_owned());
                                proof {
                                    assert(cands.deep_view() =~= spec_candidates(
                                        raw@,
                                        opt_str_view(fc),
                                    ));
                                }
                                (cands, fb)
                            },
                        }
                    }
                },
            }
        },
    }
}

/// Picks the first candidate whose existence answer is true, or the
/// fallback when none is.  Exact for every combination of answers.
pub fn resolve_against(cands: &Vec<PathObject>, ex: &Vec<bool>, fallback: PathObject) -> (r:
    PathObject)
    requires
        ex@.len() == cands@.len(),
    ensures
        r@ == first_hit(cands.deep_view(), ex@, fallback@),
{
    let n = cands.len();
    let mut i: usize = 0;
    proof {
        assert(cands.deep_view().skip(0) =~= cands.deep_view());
        assert(ex@.skip(0) =~= ex@);
    }
    while i < n
        invariant
            i <= n,
            n == cands@.len(),
            ex@.len() == n,
            first_hit(cands.deep_view(), ex@, fallback@) == first_hit(
                cands.deep_view().skip(i as int),
                ex@.skip(i as int),
                fallback@,
            ),
        decreases n - i,
    {
        if ex[i] {
            let r = cands[i].clone();
            proof {
                assert(cands.deep_view().skip(i as int).first() == cands.deep_view()[i as int]);
                assert(ex@.skip(i as int).first() == ex@[i as int]);
                assert(r@ == cands@[i as int].deep_view());
            }
            return r;
        }
        i = i + 1;
        proof {
            assert(cands.deep_view().skip(i - 1).drop_first() =~= cands.deep_view().skip(i as int));
            assert(ex@.skip(i - 1).drop_first() =~= ex@.skip(i as int));
        }
    }
    proof {
        assert(cands.deep_view().skip(n as int).len() == 0);
    }
    fallback
}

/// Resolves one raw command-line argument into a location.  The argument
/// itself wins when it names an existing file; otherwise its final component
/// is read as `name[:line[:column]]` and the first stripped candidate that
/// names a file wins; otherwise the final component, colons and all, is the
/// path and there is no position.  The policy is exactly [`spec_resolve`];
/// the existence answers are whatever the filesystem said during the call.
pub fn parse_file_line_column(path: &str) -> (r: PathObject)
    ensures
        exists|fc: Option<Seq<char>>, ex: Seq<bool>|
            ex.len() == spec_candidates(path@, fc).len() && r@ == spec_resolve(path@, fc, ex),
{
    let fc = last_normal_component(path);
    let fc_ref: Option<&str> = match &fc {
        Some(s) => Some(s.as_str()),
        None => None,
    };
    let (cands, fallback) = resolve_candidates(path, fc_ref);
    let mut ex: Vec<bool> = Vec::new();
    let n = cands.len();
    let mut i: usize = 0;
    while i < n
        invariant
            i <= n,
            n == cands@.len(),
            ex@.len() == i,
        decreases n - i,
    {
        ex.push(path_is_file(cands[i].path.as_str()));
        i = i + 1;
    }
    let r = resolve_against(&cands, &ex, fallback);
    proof {
        let fcv = opt_str_view(fc_ref);
        assert(ex@.len() == spec_candidates(path@, fcv).len());
        assert(r@ == spec_resolve(path@, fcv, ex@));
    }
    r
}

} // verus!
