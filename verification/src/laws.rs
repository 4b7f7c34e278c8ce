//! The classifier's stated laws: member order follows annotation order,
//! classification depends only on trimmed annotation bodies, and a malformed
//! annotation is never silently accepted.

use vstd::prelude::*;

use crate::classify::{AnnShape, ClassifyOut, MemberView, ann_body, ann_shape, classify_from,
    classify_spans, spec_parse};
use crate::scan::{SpanView, spec_scan};

verus! {

/// The parameter members read off the annotations alone, in span order:
/// bare tokens do not take part at all.
pub open spec fn param_members_of(spans: Seq<SpanView>) -> Seq<MemberView>
    decreases spans.len(),
{
    if spans.len() == 0 {
        Seq::empty()
    } else {
        let rest = param_members_of(spans.drop_first());
        match spans[0] {
            SpanView::Token(t) => rest,
            SpanView::Ann(a) => match ann_shape(a) {
                AnnShape::ParamShape(m) => seq![m] + rest,
                AnnShape::SelectShape(ty) => rest,
                AnnShape::BadShape(e) => rest,
            },
        }
    }
}

/// The select members: each select-shaped annotation paired with the nearest
/// preceding bare token, in span order.
pub open spec fn select_members_of(spans: Seq<SpanView>, last: Option<Seq<char>>) -> Seq<
    MemberView,
>
    decreases spans.len(),
{
    if spans.len() == 0 {
        Seq::empty()
    } else {
        match spans[0] {
            SpanView::Token(t) => select_members_of(spans.drop_first(), Some(t)),
            SpanView::Ann(a) => match ann_shape(a) {
                AnnShape::SelectShape(ty) => match last {
                    Some(name) => seq![MemberView { name: name, ty: ty }] + select_members_of(
                        spans.drop_first(),
                        last,
                    ),
                    None => select_members_of(spans.drop_first(), last),
                },
                AnnShape::ParamShape(m) => select_members_of(spans.drop_first(), last),
                AnnShape::BadShape(e) => select_members_of(spans.drop_first(), last),
            },
        }
    }
}

pub proof fn lemma_classify_order(spans: Seq<SpanView>, last: Option<Seq<char>>)
    ensures
        (match classify_from(spans, last) {
            ClassifyOut::Members { selects, params } => selects == select_members_of(spans, last)
                && params == param_members_of(spans),
            ClassifyOut::Fail(e) => true,
        }),
    decreases spans.len(),
{
    if spans.len() != 0 {
        match spans[0] {
            SpanView::Token(t) => {
                lemma_classify_order(spans.drop_first(), Some(t));
            },
            SpanView::Ann(a) => {
                lemma_classify_order(spans.drop_first(), last);
            },
        }
    }
}

/// LAW: when classification succeeds, the select members stand in the same
/// left-to-right order as their annotations in the span sequence, each named
/// by the nearest preceding bare token, and the parameter members stand in
/// the same left-to-right order as their annotations — determined by the
/// annotations alone, whatever bare tokens stand between them.
pub proof fn lemma_member_order(spans: Seq<SpanView>)
    ensures
        (match classify_spans(spans) {
            ClassifyOut::Members { selects, params } => selects == select_members_of(spans, None)
                && params == param_members_of(spans),
            ClassifyOut::Fail(e) => true,
        }),
{
    lemma_classify_order(spans, None);
}

/// LAW: for a whole annotated SQL text, scanning and classifying yields the
/// member lists in the left-to-right order of their annotations in the text.
pub proof fn lemma_parse_member_order(sql: Seq<char>)
    ensures
        (match spec_parse(sql) {
            ClassifyOut::Members { selects, params } => spec_scan(sql) is Some && selects
                == select_members_of(spec_scan(sql).unwrap(), None) && params == param_members_of(
                spec_scan(sql).unwrap(),
            ),
            ClassifyOut::Fail(e) => true,
        }),
{
    if spec_scan(sql) is Some {
        lemma_member_order(spec_scan(sql).unwrap());
    }
}

/// Two spans agree up to whitespace inside annotation bodies: bare tokens
/// are equal, annotations have equal trimmed bodies.
pub open spec fn span_equiv(x: SpanView, y: SpanView) -> bool {
    match (x, y) {
        (SpanView::Token(t1), SpanView::Token(t2)) => t1 == t2,
        (SpanView::Ann(a1), SpanView::Ann(a2)) => ann_body(a1) == ann_body(a2),
        _ => false,
    }
}

/// Two span sequences agree up to whitespace inside annotation bodies.
pub open spec fn spans_equiv(s1: Seq<SpanView>, s2: Seq<SpanView>) -> bool {
    s1.len() == s2.len() && (forall|k: int|
        0 <= k < s1.len() ==> span_equiv(#[trigger] s1[k], #[trigger] s2[k]))
}

pub proof fn lemma_classify_from_equiv(s1: Seq<SpanView>, s2: Seq<SpanView>, last: Option<
    Seq<char>,
>)
    requires
        spans_equiv(s1, s2),
    ensures
        classify_from(s1, last) == classify_from(s2, last),
    decreases s1.len(),
{
    if s1.len() != 0 {
        assert(span_equiv(s1[0], s2[0]));
        assert(spans_equiv(s1.drop_first(), s2.drop_first())) by {
            assert forall|k: int| 0 <= k < s1.drop_first().len() implies span_equiv(
                #[trigger] s1.drop_first()[k],
                #[trigger] s2.drop_first()[k],
            ) by {
                assert(s1.drop_first()[k] == s1[k + 1]);
                assert(s2.drop_first()[k] == s2[k + 1]);
                assert(span_equiv(s1[k + 1], s2[k + 1]));
            }
        }
        match s1[0] {
            SpanView::Token(t) => {
                lemma_classify_from_equiv(s1.drop_first(), s2.drop_first(), Some(t));
            },
            SpanView::Ann(a) => {
                lemma_classify_from_equiv(s1.drop_first(), s2.drop_first(), last);
            },
        }
    }
}

/// LAW: classification is invariant under whitespace changes inside
/// annotation bodies — an annotation `/*: i64 */` classifies exactly as
/// `/*:i64*/` does, and likewise for every other body.
pub proof fn lemma_classify_equiv(s1: Seq<SpanView>, s2: Seq<SpanView>)
    requires
        spans_equiv(s1, s2),
    ensures
        classify_spans(s1) == classify_spans(s2),
{
    lemma_classify_from_equiv(s1, s2, None);
}

proof fn lemma_classify_from_bad(spans: Seq<SpanView>, last: Option<Seq<char>>, k: int, a: Seq<
    char,
>)
    requires
        0 <= k < spans.len(),
        spans[k] == SpanView::Ann(a),
        ann_shape(a) is BadShape,
    ensures
        classify_from(spans, last) is Fail,
    decreases spans.len(),
{
    if k == 0 {
    } else {
        assert(spans.drop_first()[k - 1] == spans[k]);
        match spans[0] {
            SpanView::Token(t) => {
                lemma_classify_from_bad(spans.drop_first(), Some(t), k - 1, a);
            },
            SpanView::Ann(a0) => {
                lemma_classify_from_bad(spans.drop_first(), last, k - 1, a);
            },
        }
    }
}

/// LAW: a malformed annotation — an empty body, or a parameter body without
/// exactly one name/type separator or with an empty type — is never silently
/// accepted: classification of any span sequence holding one fails.
pub proof fn lemma_malformed_rejected(spans: Seq<SpanView>, k: int, a: Seq<char>)
    requires
        0 <= k < spans.len(),
        spans[k] == SpanView::Ann(a),
        ann_shape(a) is BadShape,
    ensures
        classify_spans(spans) is Fail,
{
    lemma_classify_from_bad(spans, None, k, a);
}

} // verus!
