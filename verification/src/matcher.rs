//! The path matcher: decides whether a request path fits a route pattern and
//! extracts the named parameters it binds.
//!
//! Matching walks pattern and path together. A literal segment must equal the
//! path segment exactly (case-sensitive); a parameter segment matches any one
//! non-empty path segment and binds its name to it; a catch-all segment binds
//! its name to the whole remainder, joined with `/`, and ends the walk. There
//! is no backtracking, and matching is a pure function of its inputs.

use vstd::prelude::*;
use vstd::string::StringExecFns;
use crate::pattern::SegModel;
use crate::pattern::Segment;

verus! {

/// The path segments from a position on, joined with `/`: what a catch-all
/// captures.
pub open spec fn spec_join_slash(path: Seq<Seq<char>>) -> Seq<char>
    decreases path.len(),
{
    if path.len() == 0 {
        Seq::empty()
    } else if path.len() == 1 {
        path[0]
    } else {
        path[0] + seq!['/'] + spec_join_slash(path.drop_first())
    }
}

/// Whether a pattern matches a path, and the parameters it binds: `None` on a
/// mismatch, otherwise the (name, captured text) pairs in the order the
/// pattern names them.
pub open spec fn spec_match_at(pat: Seq<SegModel>, path: Seq<Seq<char>>) -> Option<
    Seq<(Seq<char>, Seq<char>)>,
>
    decreases pat.len(),
{
    if pat.len() == 0 {
        if path.len() == 0 {
            Some(Seq::empty())
        } else {
            None
        }
    } else {
        match pat[0] {
            SegModel::Literal(l) => if path.len() > 0 && path[0] == l {
                spec_match_at(pat.drop_first(), path.drop_first())
            } else {
                None
            },
            SegModel::Param(name) => if path.len() > 0 && path[0].len() > 0 {
                match spec_match_at(pat.drop_first(), path.drop_first()) {
                    Some(rest) => Some(seq![(name, path[0])] + rest),
                    None => None,
                }
            } else {
                None
            },
            SegModel::CatchAll(name) => Some(seq![(name, spec_join_slash(path))]),
        }
    }
}

/// Joins the path segments from position `i` on with `/`.
fn join_from(path: &Vec<String>, i: usize) -> (r: String)
    requires
        i <= path.len(),
    ensures
        r@ == spec_join_slash(path.deep_view().skip(i as int)),
    decreases path.len() - i,
{
    let ghost pd = path.deep_view();
    if i == path.len() {
        proof {
            assert(pd.skip(i as int) =~= Seq::<Seq<char>>::empty());
        }
        String::new()
    } else if i + 1 == path.len() {
        proof {
            assert(pd.skip(i as int)[0] == pd[i as int]);
        }
        path[i].clone()
    } else {
        let rest = join_from(path, i + 1);
        let r = path[i].clone().concat("/").concat(rest.as_str());
        proof {
            reveal_strlit("/");
            assert(pd.skip(i as int)[0] == pd[i as int]);
            assert(pd.skip(i as int).drop_first() =~= pd.skip(i as int + 1));
            assert(r@ =~= pd[i as int] + seq!['/'] + spec_join_slash(pd.skip(i as int + 1)));
        }
        r
    }
}

/// Matches pattern against path from position `i` on, both walked in step.
fn match_from(pat: &Vec<Segment>, path: &Vec<String>, i: usize) -> (r: Option<
    Vec<(String, String)>,
>)
    requires
        i <= pat.len(),
        i <= path.len(),
    ensures
        match r {
            Some(ps) => spec_match_at(
                pat.deep_view().skip(i as int),
                path.deep_view().skip(i as int),
            ) == Some(ps.deep_view()),
            None => spec_match_at(
                pat.deep_view().skip(i as int),
                path.deep_view().skip(i as int),
            ) is None,
        },
    decreases pat.len() - i,
{
    let ghost pt = pat.deep_view();
    let ghost pd = path.deep_view();
    proof {
        if (i as int) < pt.len() {
            assert(pt.skip(i as int)[0] == pt[i as int]);
            assert(pt.skip(i as int).drop_first() =~= pt.skip(i as int + 1));
        }
        if (i as int) < pd.len() {
            assert(pd.skip(i as int)[0] == pd[i as int]);
            assert(pd.skip(i as int).drop_first() =~= pd.skip(i as int + 1));
        }
    }
    if i == pat.len() {
        if i == path.len() {
            let ps: Vec<(String, String)> = Vec::new();
            proof {
                assert(pt.skip(i as int) =~= Seq::<SegModel>::empty());
                assert(pd.skip(i as int) =~= Seq::<Seq<char>>::empty());
                assert(ps.deep_view() =~= Seq::<(Seq<char>, Seq<char>)>::empty());
            }
            Some(ps)
        } else {
            proof {
                assert(pt.skip(i as int) =~= Seq::<SegModel>::empty());
            }
            None
        }
    } else {
        match &pat[i] {
            Segment::Literal(l) => {
                if i < path.len() && path[i] == *l {
                    match_from(pat, path, i + 1)
                } else {
                    None
                }
            },
            Segment::Param(name) => {
                if i < path.len() && !path[i].as_str().is_empty() {
                    match match_from(pat, path, i + 1) {
                        Some(mut rest) => {
                            rest.insert(0, (name.clone(), path[i].clone()));
                            proof {
                                assert(rest.deep_view() =~= seq![(name@, pd[i as int])]
                                    + spec_match_at(
                                    pt.skip(i as int + 1),
                                    pd.skip(i as int + 1),
                                ).unwrap());
                            }
                            Some(rest)
                        },
                        None => None,
                    }
                } else {
                    None
                }
            },
            Segment::CatchAll(name) => {
                let captured = join_from(path, i);
                let mut ps: Vec<(String, String)> = Vec::new();
                ps.push((name.clone(), captured));
                proof {
                    assert(ps.deep_view() =~= seq![
                        (name@, spec_join_slash(pd.skip(i as int))),
                    ]);
                }
                Some(ps)
            },
        }
    }
}

/// Matches a whole pattern against a whole path: `None` on a mismatch,
/// otherwise the bound parameters in the order the pattern names them.
pub fn match_segments(pat: &Vec<Segment>, path: &Vec<String>) -> (r: Option<Vec<(String, String)>>)
    ensures
        match r {
            Some(ps) => spec_match_at(pat.deep_view(), path.deep_view()) == Some(ps.deep_view()),
            None => spec_match_at(pat.deep_view(), path.deep_view()) is None,
        },
{
    proof {
        assert(pat.deep_view().skip(0) =~= pat.deep_view());
        assert(path.deep_view().skip(0) =~= path.deep_view());
    }
    match_from(pat, path, 0)
}

/// A pattern made of literal segments only.
pub open spec fn spec_literal_only(pat: Seq<SegModel>) -> bool {
    forall|i: int| 0 <= i < pat.len() ==> (#[trigger] pat[i]) is Literal
}

/// The texts of a literal-only pattern, in order.
pub open spec fn spec_literal_texts(pat: Seq<SegModel>) -> Seq<Seq<char>> {
    pat.map_values(|s: SegModel| s->Literal_0)
}

/// Law: a literal-only pattern matches exactly the one path equal to its
/// texts, and binds no parameters.
pub proof fn lemma_literal_only_match(pat: Seq<SegModel>, path: Seq<Seq<char>>)
    requires
        spec_literal_only(pat),
    ensures
        spec_match_at(pat, path) is Some <==> path == spec_literal_texts(pat),
        spec_match_at(pat, path) is Some ==> spec_match_at(pat, path) == Some(
            Seq::<(Seq<char>, Seq<char>)>::empty(),
        ),
    decreases pat.len(),
{
    let texts = spec_literal_texts(pat);
    assert(texts.len() == pat.len());
    if pat.len() == 0 {
        if path.len() == 0 {
            assert(path =~= texts);
        }
    } else {
        assert(pat[0] is Literal);
        let l = pat[0]->Literal_0;
        assert(texts[0] == l);
        assert(pat.drop_first().len() == pat.len() - 1);
        assert forall|i: int| 0 <= i < pat.drop_first().len() implies (#[trigger] pat.drop_first()[
            i
        ]) is Literal by {
            assert(pat.drop_first()[i] == pat[i + 1]);
        }
        lemma_literal_only_match(pat.drop_first(), path.drop_first());
        assert(spec_literal_texts(pat.drop_first()) =~= texts.drop_first());
        if path.len() > 0 && path[0] == l {
            if spec_match_at(pat, path) is Some {
                assert(path.drop_first() == texts.drop_first());
                assert(path.len() == texts.len());
                assert forall|j: int| 0 <= j < path.len() implies path[j] == texts[j] by {
                    if j > 0 {
                        assert(path[j] == path.drop_first()[j - 1]);
                        assert(texts[j] == texts.drop_first()[j - 1]);
                    }
                }
                assert(path =~= texts);
            }
            if path == texts {
                assert(path.drop_first() =~= texts.drop_first());
            }
        } else {
            if path == texts {
                assert(path.len() > 0 && path[0] == texts[0]);
            }
        }
    }
}

/// The names a pattern binds, in order of appearance: those of its parameter
/// and catch-all segments.
pub open spec fn spec_bound_names(pat: Seq<SegModel>) -> Seq<Seq<char>>
    decreases pat.len(),
{
    if pat.len() == 0 {
        Seq::empty()
    } else {
        match pat[0] {
            SegModel::Literal(_) => spec_bound_names(pat.drop_first()),
            SegModel::Param(name) => seq![name] + spec_bound_names(pat.drop_first()),
            SegModel::CatchAll(name) => seq![name] + spec_bound_names(pat.drop_first()),
        }
    }
}

/// The keys of a parameter list, in order.
pub open spec fn spec_match_keys(ps: Seq<(Seq<char>, Seq<char>)>) -> Seq<Seq<char>> {
    ps.map_values(|p: (Seq<char>, Seq<char>)| p.0)
}

/// Law: a successful match of a well-formed pattern binds exactly the
/// pattern's parameter names, in their order of appearance — so when those
/// names are distinct, the result's keys are unique.
pub proof fn lemma_params_follow_pattern(pat: Seq<SegModel>, path: Seq<Seq<char>>)
    requires
        crate::pattern::spec_pattern_wf(pat),
        spec_match_at(pat, path) is Some,
    ensures
        spec_match_keys(spec_match_at(pat, path)->Some_0) == spec_bound_names(pat),
        spec_bound_names(pat).no_duplicates() ==> spec_match_keys(
            spec_match_at(pat, path)->Some_0,
        ).no_duplicates(),
    decreases pat.len(),
{
    if pat.len() == 0 {
        assert(spec_match_keys(spec_match_at(pat, path)->Some_0) =~= Seq::<Seq<char>>::empty());
    } else {
        assert forall|i: int| 0 <= i < pat.drop_first().len() implies crate::pattern::spec_seg_ok(
            pat.drop_first(),
            i,
        ) by {
            assert(pat.drop_first()[i] == pat[i + 1]);
            assert(crate::pattern::spec_seg_ok(pat, i + 1));
        }
        match pat[0] {
            SegModel::Literal(_) => {
                assert(crate::pattern::spec_seg_ok(pat, 0));
                lemma_params_follow_pattern(pat.drop_first(), path.drop_first());
                assert(spec_bound_names(pat) == spec_bound_names(pat.drop_first()));
                assert(spec_match_at(pat, path) == spec_match_at(
                    pat.drop_first(),
                    path.drop_first(),
                ));
            },
            SegModel::Param(name) => {
                lemma_params_follow_pattern(pat.drop_first(), path.drop_first());
                let rest = spec_match_at(pat.drop_first(), path.drop_first())->Some_0;
                assert(spec_bound_names(pat) == seq![name] + spec_bound_names(pat.drop_first()));
                assert(spec_match_at(pat, path)->Some_0 == seq![(name, path[0])] + rest);
                assert(spec_match_keys(seq![(name, path[0])] + rest) =~= seq![name]
                    + spec_match_keys(rest));
                assert(seq![name] + spec_match_keys(rest) =~= seq![name] + spec_bound_names(
                    pat.drop_first(),
                ));
            },
            SegModel::CatchAll(name) => {
                assert(crate::pattern::spec_seg_ok(pat, 0));
                assert(pat.len() == 1);
                assert(pat.drop_first().len() == 0);
                assert(spec_match_keys(seq![(name, spec_join_slash(path))]) =~= seq![name]
                    + Seq::<Seq<char>>::empty());
                assert(seq![name] + Seq::<Seq<char>>::empty() =~= seq![name]);
            },
        }
    }
}

/// Law: a pattern of one literal segment and one named parameter matches
/// exactly the two-segment paths whose first segment equals the literal and
/// whose second is non-empty, and it binds the parameter's name to that
/// second segment — whatever its text.
pub proof fn lemma_param_binding(lit: Seq<char>, name: Seq<char>, path: Seq<Seq<char>>)
    ensures
        spec_match_at(seq![SegModel::Literal(lit), SegModel::Param(name)], path) is Some <==> (
        path.len() == 2 && path[0] == lit && path[1].len() > 0),
        path.len() == 2 && path[0] == lit && path[1].len() > 0 ==> spec_match_at(
            seq![SegModel::Literal(lit), SegModel::Param(name)],
            path,
        ) == Some(seq![(name, path[1])]),
{
    let pat = seq![SegModel::Literal(lit), SegModel::Param(name)];
    let tail = seq![SegModel::Param(name)];
    assert(pat[0] == SegModel::Literal(lit));
    assert(pat.drop_first() =~= tail);
    assert(tail[0] == SegModel::Param(name));
    assert(tail.drop_first() =~= Seq::<SegModel>::empty());
    if path.len() > 0 && path[0] == lit {
        let rest = path.drop_first();
        assert(spec_match_at(pat, path) == spec_match_at(tail, rest));
        if rest.len() > 0 && rest[0].len() > 0 {
            let rr = rest.drop_first();
            if rr.len() == 0 {
                assert(spec_match_at(Seq::<SegModel>::empty(), rr) == Some(
                    Seq::<(Seq<char>, Seq<char>)>::empty(),
                ));
                assert(path.len() == 2);
                assert(rest[0] == path[1]);
                assert(spec_match_at(tail, rest) == Some(
                    seq![(name, path[1])] + Seq::<(Seq<char>, Seq<char>)>::empty(),
                ));
                assert(seq![(name, path[1])] + Seq::<(Seq<char>, Seq<char>)>::empty() =~= seq![
                    (name, path[1]),
                ]);
            } else {
                assert(spec_match_at(Seq::<SegModel>::empty(), rr) is None);
                assert(spec_match_at(tail, rest) is None);
                assert(path.len() > 2);
            }
        } else {
            assert(spec_match_at(tail, rest) is None);
            if rest.len() > 0 {
                assert(path[1] == rest[0]);
            }
        }
    } else {
        assert(spec_match_at(pat, path) is None);
    }
}

} // verus!
