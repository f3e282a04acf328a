//! Path segments and route patterns.
//!
//! A request path is split on `/` into segments; a route pattern is the same
//! split, where a segment starting with `:` names a parameter that captures
//! one segment, and a segment starting with `*` names a catch-all that
//! captures the whole remainder. A catch-all is only well formed as the last
//! segment of its pattern.

use vstd::prelude::*;
use vstd::string::StrSliceExecFns;

verus! {

/// One segment of a route pattern: fixed text, a named single-segment
/// parameter, or a named trailing catch-all.
pub enum Segment {
    Literal(String),
    Param(String),
    CatchAll(String),
}

/// The mathematical model of a [`Segment`]: its text as a character sequence.
pub enum SegModel {
    Literal(Seq<char>),
    Param(Seq<char>),
    CatchAll(Seq<char>),
}

impl View for Segment {
    type V = SegModel;

    open spec fn view(&self) -> SegModel {
        match self {
            Segment::Literal(s) => SegModel::Literal(s@),
            Segment::Param(s) => SegModel::Param(s@),
            Segment::CatchAll(s) => SegModel::CatchAll(s@),
        }
    }
}

impl DeepView for Segment {
    type V = SegModel;

    open spec fn deep_view(&self) -> SegModel {
        self.view()
    }
}

/// The position of the first `/` in a string, or its length when it has none.
pub open spec fn spec_first_slash(s: Seq<char>) -> int
    decreases s.len(),
{
    if s.len() == 0 {
        0
    } else if s[0] == '/' {
        0
    } else {
        1 + spec_first_slash(s.drop_first())
    }
}

/// [`spec_first_slash`] is in bounds, everything before it is not a slash,
/// and it points at a slash unless the string has none.
pub proof fn lemma_first_slash(s: Seq<char>)
    ensures
        0 <= spec_first_slash(s) <= s.len(),
        forall|j: int| 0 <= j < spec_first_slash(s) ==> s[j] != '/',
        spec_first_slash(s) < s.len() ==> s[spec_first_slash(s)] == '/',
    decreases s.len(),
{
    if s.len() == 0 {
    } else if s[0] == '/' {
    } else {
        lemma_first_slash(s.drop_first());
        assert forall|j: int| 0 <= j < spec_first_slash(s) implies s[j] != '/' by {
            if j > 0 {
                assert(s[j] == s.drop_first()[j - 1]);
            }
        }
        if spec_first_slash(s) < s.len() {
            assert(s[spec_first_slash(s)] == s.drop_first()[spec_first_slash(s.drop_first())]);
        }
    }
}

/// A position with no slash before it that holds a slash, or is the string's
/// end, is exactly [`spec_first_slash`].
pub proof fn lemma_first_slash_at(s: Seq<char>, i: int)
    requires
        0 <= i <= s.len(),
        forall|j: int| 0 <= j < i ==> s[j] != '/',
        i < s.len() ==> s[i] == '/',
    ensures
        spec_first_slash(s) == i,
    decreases s.len(),
{
    if i == 0 {
    } else {
        assert(s[0] != '/');
        assert forall|j: int| 0 <= j < i - 1 implies s.drop_first()[j] != '/' by {
            assert(s.drop_first()[j] == s[j + 1]);
        }
        if i - 1 < s.drop_first().len() {
            assert(s.drop_first()[i - 1] == s[i]);
        }
        lemma_first_slash_at(s.drop_first(), i - 1);
    }
}

/// The pieces of a string split on `/`: one more piece than there are
/// slashes, each piece the text between two neighbouring slashes, in order.
/// A string without a slash is one piece, so the result is never empty.
pub open spec fn spec_split_slash(s: Seq<char>) -> Seq<Seq<char>>
    decreases s.len(),
    via spec_split_slash_decreases
{
    let i = spec_first_slash(s);
    if i == s.len() {
        seq![s]
    } else {
        seq![s.subrange(0, i)] + spec_split_slash(s.subrange(i + 1, s.len() as int))
    }
}

#[via_fn]
proof fn spec_split_slash_decreases(s: Seq<char>) {
    lemma_first_slash(s);
}

/// Splits a string on `/`.
pub fn split_slash(s: &str) -> (r: Vec<String>)
    ensures
        r.deep_view() == spec_split_slash(s@),
    decreases s@.len(),
{
    let n = s.unicode_len();
    let mut i: usize = 0;
    while i < n && s.get_char(i) != '/'
        invariant
            n == s@.len(),
            i <= n,
            forall|j: int| 0 <= j < i ==> s@[j] != '/',
        decreases n - i,
    {
        i = i + 1;
    }
    proof {
        lemma_first_slash_at(s@, i as int);
    }
    if i == n {
        let mut r: Vec<String> = Vec::new();
        r.push(s.to_owned());
        proof {
            assert(r.deep_view() =~= seq![s@]);
        }
        r
    } else {
        let head = s.substring_char(0, i).to_owned();
        let tail = s.substring_char(i + 1, n);
        let mut rest = split_slash(tail);
        rest.insert(0, head);
        proof {
            assert(rest.deep_view() =~= seq![s@.subrange(0, i as int)] + spec_split_slash(
                s@.subrange(i as int + 1, s@.len() as int),
            ));
        }
        rest
    }
}

/// A request path's segments: the path split on `/`, after one leading slash
/// is dropped.
pub open spec fn spec_path_segments(p: Seq<char>) -> Seq<Seq<char>> {
    if p.len() > 0 && p[0] == '/' {
        spec_split_slash(p.drop_first())
    } else {
        spec_split_slash(p)
    }
}

/// Splits a request path into its segments.
pub fn split_path(p: &str) -> (r: Vec<String>)
    ensures
        r.deep_view() == spec_path_segments(p@),
{
    let n = p.unicode_len();
    if n > 0 && p.get_char(0) == '/' {
        let rest = p.substring_char(1, n);
        proof {
            assert(rest@ =~= p@.drop_first());
        }
        split_slash(rest)
    } else {
        split_slash(p)
    }
}

/// What one raw pattern segment means: a leading `:` names a parameter, a
/// leading `*` names a catch-all, anything else is literal text.
pub open spec fn spec_segment_model(raw: Seq<char>) -> SegModel {
    if raw.len() > 0 && raw[0] == ':' {
        SegModel::Param(raw.drop_first())
    } else if raw.len() > 0 && raw[0] == '*' {
        SegModel::CatchAll(raw.drop_first())
    } else {
        SegModel::Literal(raw)
    }
}

/// The segments a pattern string denotes.
pub open spec fn spec_pattern_models(p: Seq<char>) -> Seq<SegModel> {
    spec_path_segments(p).map_values(|raw: Seq<char>| spec_segment_model(raw))
}

/// Whether the segment at a position is acceptable in its pattern: parameter
/// and catch-all names are non-empty, and a catch-all stands last.
pub open spec fn spec_seg_ok(pat: Seq<SegModel>, i: int) -> bool {
    match pat[i] {
        SegModel::Literal(_) => true,
        SegModel::Param(name) => name.len() > 0,
        SegModel::CatchAll(name) => name.len() > 0 && i == pat.len() - 1,
    }
}

/// A well-formed pattern: every segment is acceptable where it stands.
pub open spec fn spec_pattern_wf(pat: Seq<SegModel>) -> bool {
    forall|i: int| 0 <= i < pat.len() ==> #[trigger] spec_seg_ok(pat, i)
}

/// Parses a pattern string into its segments, or refuses it when a parameter
/// or catch-all name is empty or a catch-all is not the last segment.
pub fn parse_pattern(p: &str) -> (r: Option<Vec<Segment>>)
    ensures
        match r {
            Some(segs) => segs.deep_view() == spec_pattern_models(p@) && spec_pattern_wf(
                segs.deep_view(),
            ),
            None => !spec_pattern_wf(spec_pattern_models(p@)),
        },
{
    let raw = split_path(p);
    let ghost rs = raw.deep_view();
    let ghost models = spec_pattern_models(p@);
    proof {
        assert(models.len() == rs.len());
    }
    let mut segs: Vec<Segment> = Vec::new();
    let mut k: usize = 0;
    while k < raw.len()
        invariant
            k <= raw.len(),
            rs == raw.deep_view(),
            rs.len() == raw.len(),
            models == spec_pattern_models(p@),
            models.len() == rs.len(),
            forall|i: int| 0 <= i < rs.len() ==> models[i] == spec_segment_model(rs[i]),
            segs.deep_view().len() == k,
            forall|i: int| 0 <= i < k ==> segs.deep_view()[i] == models[i],
            forall|i: int|
                0 <= i < k ==> (match #[trigger] models[i] {
                    SegModel::Literal(_) => true,
                    SegModel::Param(name) => name.len() > 0,
                    SegModel::CatchAll(name) => name.len() > 0 && i == rs.len() - 1,
                }),
        decreases raw.len() - k,
    {
        let seg: &String = &raw[k];
        let len = seg.as_str().unicode_len();
        let first_colon = len > 0 && seg.as_str().get_char(0) == ':';
        let first_star = len > 0 && seg.as_str().get_char(0) == '*';
        if first_colon {
            if len == 1 {
                proof {
                    assert(models[k as int] matches SegModel::Param(name) && name.len() == 0);
                    assert(!spec_seg_ok(models, k as int));
                }
                return None;
            }
            let name = seg.as_str().substring_char(1, len).to_owned();
            proof {
                assert(name@ =~= rs[k as int].drop_first());
            }
            segs.push(Segment::Param(name));
        } else if first_star {
            if len == 1 {
                proof {
                    assert(models[k as int] matches SegModel::CatchAll(name) && name.len() == 0);
                    assert(!spec_seg_ok(models, k as int));
                }
                return None;
            }
            if k + 1 != raw.len() {
                proof {
                    assert(models[k as int] is CatchAll);
                    assert(!spec_seg_ok(models, k as int));
                }
                return None;
            }
            let name = seg.as_str().substring_char(1, len).to_owned();
            proof {
                assert(name@ =~= rs[k as int].drop_first());
            }
            segs.push(Segment::CatchAll(name));
        } else {
            segs.push(Segment::Literal(seg.clone()));
        }
        k = k + 1;
    }
    proof {
        assert(segs.deep_view() =~= models);
        assert forall|i: int| 0 <= i < models.len() implies #[trigger] spec_seg_ok(models, i) by {
            assert(models[i] == spec_segment_model(rs[i]));
        }
    }
    Some(segs)
}

} // verus!
