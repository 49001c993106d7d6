//! Ordering of the match list.
//!
//! The table shows matches sorted by pipeline name, then job name --- both
//! compared case-insensitively --- then build number, newest (largest)
//! first. The ordering is stable: [`sort_matches`] returns exactly
//! [`select_sort`], which repeatedly takes the *earliest* row that comes
//! no later than every remaining one, so rows that the order does not
//! distinguish keep their input order.

use vstd::prelude::*;

use vstd::multiset::Multiset;
use vstd::relations::sorted_by;

use crate::model::{MatchResult, MatchView};

verus! {

/// The lowercase form of a string, named after `str::to_lowercase`.
pub uninterp spec fn lower_of(s: Seq<char>) -> Seq<char>;

/// Relies on `str::to_lowercase`: the lowercase form is a function of the
/// characters alone.
#[verifier::external_body]
fn lowercase(s: &str) -> (r: String)
    ensures
        r@ == lower_of(s@),
{
    s.to_lowercase()
}

/// Strict lexicographic order on character sequences, by code point.
pub open spec fn lex_lt(a: Seq<char>, b: Seq<char>) -> bool
    decreases a.len(),
{
    if b.len() == 0 {
        false
    } else if a.len() == 0 {
        true
    } else if a[0] != b[0] {
        (a[0] as u32) < (b[0] as u32)
    } else {
        lex_lt(a.drop_first(), b.drop_first())
    }
}

/// Two sequences are lexicographically comparable or equal.
pub proof fn lemma_lex_trichotomy(a: Seq<char>, b: Seq<char>)
    ensures
        lex_lt(a, b) || lex_lt(b, a) || a == b,
    decreases a.len(),
{
    if b.len() == 0 {
        if a.len() == 0 {
            assert(a =~= b);
        }
    } else if a.len() == 0 {
    } else if a[0] != b[0] {
        vstd::utf8::char_u32_cast(a[0], a[0] as u32);
        vstd::utf8::char_u32_cast(b[0], b[0] as u32);
        assert((a[0] as u32) != (b[0] as u32));
    } else {
        lemma_lex_trichotomy(a.drop_first(), b.drop_first());
        if a.drop_first() == b.drop_first() {
            assert(a.len() == b.len()) by {
                assert(a.drop_first().len() == b.drop_first().len());
            }
            assert forall|i: int| 0 <= i < a.len() implies a[i] == b[i] by {
                if i > 0 {
                    assert(a[i] == a.drop_first()[i - 1]);
                    assert(b[i] == b.drop_first()[i - 1]);
                }
            }
            assert(a =~= b);
        }
    }
}

/// Nothing is lexicographically below itself.
pub proof fn lemma_lex_irreflexive(a: Seq<char>)
    ensures
        !lex_lt(a, a),
    decreases a.len(),
{
    if a.len() > 0 {
        lemma_lex_irreflexive(a.drop_first());
    }
}

/// Lexicographic order is transitive.
pub proof fn lemma_lex_transitive(a: Seq<char>, b: Seq<char>, c: Seq<char>)
    requires
        lex_lt(a, b),
        lex_lt(b, c),
    ensures
        lex_lt(a, c),
    decreases a.len() + b.len() + c.len(),
{
    if a.len() == 0 {
    } else if b.len() == 0 {
    } else if c.len() == 0 {
    } else if a[0] == b[0] && b[0] == c[0] {
        lemma_lex_transitive(a.drop_first(), b.drop_first(), c.drop_first());
    }
}

/// The table order on match rows: lowercase pipeline name, then lowercase
/// job name, then build number descending.
pub open spec fn match_le(a: MatchView, b: MatchView) -> bool {
    ||| lex_lt(lower_of(a.pipeline_name), lower_of(b.pipeline_name))
    ||| (lower_of(a.pipeline_name) == lower_of(b.pipeline_name) && (lex_lt(
        lower_of(a.job_name),
        lower_of(b.job_name),
    ) || (lower_of(a.job_name) == lower_of(b.job_name) && a.build_number >= b.build_number)))
}

/// The table order as a relation value, for `sorted_by`.
pub open spec fn match_order() -> spec_fn(MatchView, MatchView) -> bool {
    |a: MatchView, b: MatchView| match_le(a, b)
}

/// Any two match rows are comparable.
pub proof fn lemma_match_le_total(a: MatchView, b: MatchView)
    ensures
        match_le(a, b) || match_le(b, a),
{
    lemma_lex_trichotomy(lower_of(a.pipeline_name), lower_of(b.pipeline_name));
    lemma_lex_trichotomy(lower_of(a.job_name), lower_of(b.job_name));
}

/// The table order is transitive.
pub proof fn lemma_match_le_transitive(a: MatchView, b: MatchView, c: MatchView)
    requires
        match_le(a, b),
        match_le(b, c),
    ensures
        match_le(a, c),
{
    let ap = lower_of(a.pipeline_name);
    let bp = lower_of(b.pipeline_name);
    let cp = lower_of(c.pipeline_name);
    if lex_lt(ap, bp) && lex_lt(bp, cp) {
        lemma_lex_transitive(ap, bp, cp);
    } else if ap == bp && bp == cp {
        let aj = lower_of(a.job_name);
        let bj = lower_of(b.job_name);
        let cj = lower_of(c.job_name);
        if lex_lt(aj, bj) && lex_lt(bj, cj) {
            lemma_lex_transitive(aj, bj, cj);
        }
    }
}

/// The index of the earliest row that comes no later than every row of
/// `s`.
pub open spec fn first_min_index(s: Seq<MatchView>) -> int
    recommends
        s.len() > 0,
    decreases s.len(),
{
    if s.len() <= 1 {
        0
    } else {
        let rest = first_min_index(s.drop_first()) + 1;
        if match_le(s[0], s[rest]) {
            0
        } else {
            rest
        }
    }
}

/// `first_min_index` is in range, picks a row that comes no later than
/// every row, and is the earliest index doing so.
pub proof fn lemma_first_min_index(s: Seq<MatchView>)
    requires
        s.len() > 0,
    ensures
        0 <= first_min_index(s) < s.len(),
        forall|t: int| 0 <= t < s.len() ==> match_le(s[first_min_index(s)], #[trigger] s[t]),
        forall|t: int|
            0 <= t < first_min_index(s) ==> !match_le(#[trigger] s[t], s[first_min_index(s)]),
    decreases s.len(),
{
    if s.len() > 1 {
        let sd = s.drop_first();
        lemma_first_min_index(sd);
        let r = first_min_index(sd) + 1;
        if match_le(s[0], s[r]) {
            assert forall|t: int| 0 <= t < s.len() implies match_le(s[0], #[trigger] s[t]) by {
                if t > 0 {
                    assert(match_le(sd[r - 1], sd[t - 1]));
                    assert(sd[r - 1] == s[r]);
                    assert(sd[t - 1] == s[t]);
                    lemma_match_le_transitive(s[0], s[r], s[t]);
                }
            }
        } else {
            lemma_match_le_total(s[0], s[r]);
            assert forall|t: int| 0 <= t < s.len() implies match_le(s[r], #[trigger] s[t]) by {
                if t > 0 {
                    assert(match_le(sd[r - 1], sd[t - 1]));
                    assert(sd[r - 1] == s[r]);
                    assert(sd[t - 1] == s[t]);
                }
            }
            assert forall|t: int| 0 <= t < r implies !match_le(#[trigger] s[t], s[r]) by {
                if t > 0 {
                    assert(!match_le(sd[t - 1], sd[r - 1]));
                    assert(sd[r - 1] == s[r]);
                    assert(sd[t - 1] == s[t]);
                }
            }
        }
    }
}

/// The stable sort of the match list: the earliest least row first, then
/// the stable sort of the rest.
pub open spec fn select_sort(s: Seq<MatchView>) -> Seq<MatchView>
    decreases s.len(),
    via select_sort_decreases
{
    if s.len() == 0 {
        Seq::empty()
    } else {
        seq![s[first_min_index(s)]] + select_sort(s.remove(first_min_index(s)))
    }
}

#[via_fn]
proof fn select_sort_decreases(s: Seq<MatchView>) {
    if s.len() > 0 {
        lemma_first_min_index(s);
    }
}

/// Whether `a@` is lexicographically below `b@`.
fn str_lt(a: &str, b: &str) -> (r: bool)
    ensures
        r == lex_lt(a@, b@),
    decreases a@.len(),
{
    let a_len = a.unicode_len();
    let b_len = b.unicode_len();
    if b_len == 0 {
        false
    } else if a_len == 0 {
        true
    } else {
        let ca = a.get_char(0);
        let cb = b.get_char(0);
        if ca != cb {
            (ca as u32) < (cb as u32)
        } else {
            let ra = a.substring_char(1, a_len);
            let rb = b.substring_char(1, b_len);
            proof {
                assert(ra@ =~= a@.drop_first());
                assert(rb@ =~= b@.drop_first());
            }
            str_lt(ra, rb)
        }
    }
}

/// Whether row `a` comes no later than row `b` in the table order.
fn match_le_exec(a: &MatchResult, b: &MatchResult) -> (r: bool)
    ensures
        r == match_le(a.deep_view(), b.deep_view()),
{
    let ap = lowercase(a.pipeline_name.as_str());
    let bp = lowercase(b.pipeline_name.as_str());
    if str_lt(ap.as_str(), bp.as_str()) {
        true
    } else if str_lt(bp.as_str(), ap.as_str()) {
        proof {
            if ap@ == bp@ {
                lemma_lex_irreflexive(ap@);
            }
        }
        false
    } else {
        proof {
            lemma_lex_trichotomy(ap@, bp@);
        }
        let aj = lowercase(a.job_name.as_str());
        let bj = lowercase(b.job_name.as_str());
        if str_lt(aj.as_str(), bj.as_str()) {
            true
        } else if str_lt(bj.as_str(), aj.as_str()) {
            proof {
                if aj@ == bj@ {
                    lemma_lex_irreflexive(aj@);
                }
            }
            false
        } else {
            proof {
                lemma_lex_trichotomy(aj@, bj@);
            }
            a.build_number >= b.build_number
        }
    }
}

/// The index of the earliest row that comes no later than every row of
/// `v`: exactly [`first_min_index`].
fn min_index(v: &Vec<MatchResult>) -> (r: usize)
    requires
        v@.len() > 0,
    ensures
        r < v@.len(),
        r as int == first_min_index(v.deep_view()),
{
    let mut best: usize = 0;
    let mut j: usize = 1;
    while j < v.len()
        invariant
            best < j <= v@.len(),
            forall|t: int|
                0 <= t < j ==> match_le(v.deep_view()[best as int], #[trigger] v.deep_view()[t]),
            forall|t: int|
                0 <= t < best ==> !match_le(#[trigger] v.deep_view()[t], v.deep_view()[best as int]),
        decreases v@.len() - j,
    {
        if !match_le_exec(&v[best], &v[j]) {
            proof {
                let dv = v.deep_view();
                lemma_match_le_total(dv[best as int], dv[j as int]);
                assert forall|t: int| 0 <= t < j implies match_le(
                    dv[j as int],
                    #[trigger] dv[t],
                ) by {
                    lemma_match_le_transitive(dv[j as int], dv[best as int], dv[t]);
                }
                assert forall|t: int| 0 <= t < j implies !match_le(
                    #[trigger] dv[t],
                    dv[j as int],
                ) by {
                    if match_le(dv[t], dv[j as int]) {
                        lemma_match_le_transitive(dv[best as int], dv[t], dv[j as int]);
                    }
                }
            }
            best = j;
        }
        j = j + 1;
    }
    proof {
        let dv = v.deep_view();
        lemma_first_min_index(dv);
        let f = first_min_index(dv);
        if f < best {
            assert(match_le(dv[f], dv[best as int]));
            assert(false);
        }
        if best < f {
            assert(match_le(dv[best as int], dv[f]));
            assert(false);
        }
    }
    best
}

/// Sorts the match list for the table: pipeline name, then job name (each
/// case-insensitively), then build number descending. The result holds
/// exactly the rows of the input, and is the stable sort [`select_sort`]:
/// rows the order does not distinguish keep their input order.
pub fn sort_matches(v: Vec<MatchResult>) -> (r: Vec<MatchResult>)
    ensures
        sorted_by(r.deep_view(), match_order()),
        r.deep_view().to_multiset() == v.deep_view().to_multiset(),
        r.deep_view() == select_sort(v.deep_view()),
{
    let ghost orig = v.deep_view();
    let mut rest = v;
    let mut out: Vec<MatchResult> = Vec::new();
    proof {
        assert forall|x: MatchView| out.deep_view().to_multiset().count(x) == 0 by {
            vstd::seq_lib::to_multiset_contains(out.deep_view(), x);
            assert(!out.deep_view().contains(x));
        }
        assert(out.deep_view().to_multiset().add(rest.deep_view().to_multiset())
            =~= orig.to_multiset());
        assert(select_sort(orig) =~= out.deep_view() + select_sort(rest.deep_view()));
    }
    while rest.len() > 0
        invariant
            out.deep_view().to_multiset().add(rest.deep_view().to_multiset())
                == orig.to_multiset(),
            sorted_by(out.deep_view(), match_order()),
            forall|p: int, q: int|
                0 <= p < out.deep_view().len() && 0 <= q < rest.deep_view().len() ==> match_le(
                    #[trigger] out.deep_view()[p],
                    #[trigger] rest.deep_view()[q],
                ),
            select_sort(orig) == out.deep_view() + select_sort(rest.deep_view()),
        decreases rest.len(),
    {
        let best = min_index(&rest);
        let ghost pre_out = out.deep_view();
        let ghost pre_rest = rest.deep_view();
        let chosen = rest.remove(best);
        out.push(chosen);
        proof {
            let ghost m = pre_rest[best as int];
            lemma_first_min_index(pre_rest);
            assert(out.deep_view() =~= pre_out.push(m));
            assert(rest.deep_view() =~= pre_rest.remove(best as int));
            vstd::seq_lib::to_multiset_build(pre_out, m);
            vstd::seq_lib::to_multiset_remove(pre_rest, best as int);
            vstd::seq_lib::to_multiset_contains(pre_rest, m);
            assert(pre_rest.contains(m)) by {
                assert(pre_rest[best as int] == m);
            }
            assert(pre_rest.to_multiset().count(m) > 0);
            assert(out.deep_view().to_multiset().add(rest.deep_view().to_multiset())
                =~= orig.to_multiset());
            assert forall|p: int, q: int|
                0 <= p < out.deep_view().len() && 0 <= q < rest.deep_view().len() implies match_le(
                #[trigger] out.deep_view()[p],
                #[trigger] rest.deep_view()[q],
            ) by {
                if p < pre_out.len() {
                    if q < best {
                        assert(rest.deep_view()[q] == pre_rest[q]);
                    } else {
                        assert(rest.deep_view()[q] == pre_rest[q + 1]);
                    }
                } else {
                    assert(out.deep_view()[p] == pre_rest[best as int]);
                    if q < best {
                        assert(rest.deep_view()[q] == pre_rest[q]);
                    } else {
                        assert(rest.deep_view()[q] == pre_rest[q + 1]);
                    }
                }
            }
            assert(sorted_by(out.deep_view(), match_order()));
            assert(select_sort(pre_rest) == seq![m] + select_sort(pre_rest.remove(
                best as int,
            )));
            assert(out.deep_view() + select_sort(rest.deep_view()) =~= pre_out + select_sort(
                pre_rest,
            ));
        }
    }
    proof {
        assert forall|x: MatchView| rest.deep_view().to_multiset().count(x) == 0 by {
            vstd::seq_lib::to_multiset_contains(rest.deep_view(), x);
            assert(!rest.deep_view().contains(x));
        }
        assert(out.deep_view().to_multiset() =~= orig.to_multiset());
        assert(rest.deep_view() =~= Seq::<MatchView>::empty());
        assert(out.deep_view() =~= select_sort(orig));
    }
    out
}

} // verus!
