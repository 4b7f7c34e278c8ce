//! Member classifier: walks the scanner's span sequence and derives the two
//! ordered member lists of a statement.
//!
//! An annotation body with a name/type separator (a colon not at position 0)
//! names a bound parameter; a body without one is a bare type descriptor for
//! the result column named by the nearest preceding bare token. Both lists
//! keep source order: that order is what fixes column and placeholder
//! indices downstream.

use vstd::prelude::*;
use vstd::string::StrSliceExecFns;

use crate::error::GenError;
use crate::scan::{Span, SpanView, ann_wf, scan, span_wf, spans_view, spans_wf, spec_scan};
use crate::text::{find_char, find_char_from, lemma_find_char_from_bounds, spec_trim, trim_str};

verus! {

/// One classified member: a result column's or a bound parameter's name and
/// type descriptor.
#[derive(Debug, Clone, PartialEq, Eq)]
pub struct SqlMember {
    pub name: String,
    pub type_desc: String,
}

/// The mathematical value of a member.
pub struct MemberView {
    pub name: Seq<char>,
    pub ty: Seq<char>,
}

impl View for SqlMember {
    type V = MemberView;

    open spec fn view(&self) -> MemberView {
        MemberView { name: self.name@, ty: self.type_desc@ }
    }
}

/// The values of a member sequence.
pub open spec fn members_view(v: Seq<SqlMember>) -> Seq<MemberView> {
    v.map_values(|m: SqlMember| m@)
}

/// The two ordered member lists of one classified statement.
#[derive(Debug, Clone, PartialEq, Eq)]
pub struct QueryShape {
    pub select_members: Vec<SqlMember>,
    pub param_members: Vec<SqlMember>,
}

/// The content of an annotation span, its delimiters stripped.
pub open spec fn ann_interior(a: Seq<char>) -> Seq<char> {
    a.subrange(3, a.len() - 2)
}

/// The body of an annotation span: its content, trimmed.
pub open spec fn ann_body(a: Seq<char>) -> Seq<char> {
    spec_trim(ann_interior(a))
}

/// What one annotation body means on its own: a bare type descriptor, a
/// parameter member, or a refusal.
pub enum AnnShape {
    SelectShape(Seq<char>),
    ParamShape(MemberView),
    BadShape(GenError),
}

/// Classifies one annotation span by the shape of its body. A colon not at
/// position 0 separates a parameter's name from its type; exactly one such
/// separator must be present in a parameter body, and the type part must not
/// be empty.
pub open spec fn ann_shape(a: Seq<char>) -> AnnShape {
    let body = ann_body(a);
    if body.len() == 0 {
        AnnShape::BadShape(GenError::EmptyAnnotation)
    } else {
        match find_char_from(body, ':', 1) {
            None => AnnShape::SelectShape(body),
            Some(k) => match find_char_from(body, ':', k + 1) {
                Some(k2) => AnnShape::BadShape(GenError::InvalidTypeDescriptor),
                None => {
                    let pname = spec_trim(body.subrange(0, k));
                    let pty = spec_trim(body.subrange(k + 1, body.len() as int));
                    if pty.len() == 0 {
                        AnnShape::BadShape(GenError::InvalidTypeDescriptor)
                    } else {
                        AnnShape::ParamShape(MemberView { name: pname, ty: pty })
                    }
                },
            },
        }
    }
}

/// The classifier's outcome: the two ordered member lists, or the first
/// refusal in span order.
pub enum ClassifyOut {
    Members { selects: Seq<MemberView>, params: Seq<MemberView> },
    Fail(GenError),
}

/// Classifies the spans from the front, `last` holding the nearest preceding
/// bare token. Members keep span order; the first refusal wins.
pub open spec fn classify_from(spans: Seq<SpanView>, last: Option<Seq<char>>) -> ClassifyOut
    decreases spans.len(),
{
    if spans.len() == 0 {
        ClassifyOut::Members { selects: Seq::empty(), params: Seq::empty() }
    } else {
        match spans[0] {
            SpanView::Token(t) => classify_from(spans.drop_first(), Some(t)),
            SpanView::Ann(a) => match ann_shape(a) {
                AnnShape::BadShape(e) => ClassifyOut::Fail(e),
                AnnShape::SelectShape(ty) => match last {
                    None => ClassifyOut::Fail(GenError::OrphanAnnotation),
                    Some(name) => match classify_from(spans.drop_first(), last) {
                        ClassifyOut::Fail(e) => ClassifyOut::Fail(e),
                        ClassifyOut::Members { selects, params } => (ClassifyOut::Members {
                            selects: seq![MemberView { name: name, ty: ty }] + selects,
                            params: params,
                        }),
                    },
                },
                AnnShape::ParamShape(m) => match classify_from(spans.drop_first(), last) {
                    ClassifyOut::Fail(e) => ClassifyOut::Fail(e),
                    ClassifyOut::Members { selects, params } => (ClassifyOut::Members {
                        selects: selects,
                        params: seq![m] + params,
                    }),
                },
            },
        }
    }
}

/// Two members of the list share a name.
pub open spec fn has_dup_name(ms: Seq<MemberView>) -> bool {
    exists|i: int, j: int| 0 <= i < j < ms.len() && ms[i].name == ms[j].name
}

/// The whole classification of a span sequence: the ordered member lists,
/// refused when any annotation is malformed or either list repeats a name.
pub open spec fn classify_spans(spans: Seq<SpanView>) -> ClassifyOut {
    match classify_from(spans, None) {
        ClassifyOut::Fail(e) => ClassifyOut::Fail(e),
        ClassifyOut::Members { selects, params } => {
            if has_dup_name(selects) || has_dup_name(params) {
                ClassifyOut::Fail(GenError::DuplicateMemberName)
            } else {
                ClassifyOut::Members { selects, params }
            }
        },
    }
}

/// The view of an optional owned token.
pub open spec fn opt_str_view(o: Option<String>) -> Option<Seq<char>> {
    match o {
        Some(s) => Some(s@),
        None => None,
    }
}

/// Whether two members of the list share a name.
fn has_dup_exec(ms: &Vec<SqlMember>) -> (r: bool)
    ensures
        r == has_dup_name(members_view(ms@)),
{
    let n = ms.len();
    let mut i: usize = 0;
    while i < n
        invariant
            0 <= i <= n,
            n == ms@.len(),
            forall|i0: int, j0: int|
                0 <= i0 < i && i0 < j0 < n ==> members_view(ms@)[i0].name != members_view(
                    ms@,
                )[j0].name,
        decreases n - i,
    {
        let mut j: usize = i + 1;
        while j < n
            invariant
                0 <= i < j <= n,
                n == ms@.len(),
                forall|j0: int|
                    i < j0 < j ==> members_view(ms@)[i as int].name != members_view(
                        ms@,
                    )[j0].name,
            decreases n - j,
        {
            if ms[i].name == ms[j].name {
                proof {
                    assert(members_view(ms@)[i as int].name == members_view(ms@)[j as int].name);
                }
                return true;
            }
            j = j + 1;
        }
        i = i + 1;
    }
    false
}

/// Walks the spans with a one-token lookback and produces the ordered select
/// and parameter member lists, or the first refusal in span order.
pub fn classify(spans: &Vec<Span>) -> (r: Result<QueryShape, GenError>)
    requires
        spans_wf(spans_view(spans@)),
    ensures
        (match r {
            Ok(shape) => classify_spans(spans_view(spans@)) == (ClassifyOut::Members {
                selects: members_view(shape.select_members@),
                params: members_view(shape.param_members@),
            }),
            Err(e) => classify_spans(spans_view(spans@)) == ClassifyOut::Fail(e),
        }),
{
    let ghost all = spans_view(spans@);
    let n = spans.len();
    let mut sel: Vec<SqlMember> = Vec::new();
    let mut par: Vec<SqlMember> = Vec::new();
    let mut last: Option<String> = None;
    let mut i: usize = 0;
    proof {
        assert(all.skip(0) =~= all);
        assert(members_view(sel@) =~= Seq::<MemberView>::empty());
        assert(members_view(par@) =~= Seq::<MemberView>::empty());
    }
    while i < n
        invariant
            0 <= i <= n,
            n == spans@.len(),
            all == spans_view(spans@),
            spans_wf(all),
            (match classify_from(all.skip(i as int), opt_str_view(last)) {
                ClassifyOut::Fail(e) => classify_from(all, None) == ClassifyOut::Fail(e),
                ClassifyOut::Members { selects, params } => classify_from(all, None)
                    == (ClassifyOut::Members {
                    selects: members_view(sel@) + selects,
                    params: members_view(par@) + params,
                }),
            }),
        decreases n - i,
    {
        proof {
            assert(all.skip(i as int)[0] == all[i as int]);
            assert(all.skip(i as int).drop_first() =~= all.skip(i + 1 as int));
            assert(span_wf(all[i as int]));
        }
        let sp: &Span = &spans[i];
        match sp {
            Span::Token(t) => {
                last = Some(t.clone());
            },
            Span::Ann(a) => {
                proof {
                    assert(ann_wf(a@));
                }
                let ulen = a.as_str().unicode_len();
                let interior = a.as_str().substring_char(3, ulen - 2);
                let body = trim_str(interior);
                proof {
                    assert(interior@ == ann_interior(a@));
                    assert(body@ == ann_body(a@));
                }
                let blen = body.unicode_len();
                if blen == 0 {
                    proof {
                        assert(classify_from(all.skip(i as int), opt_str_view(last))
                            == ClassifyOut::Fail(GenError::EmptyAnnotation));
                    }
                    return Err(GenError::EmptyAnnotation);
                }
                match find_char(body, ':', 1) {
                    None => {
                        match &last {
                            None => {
                                proof {
                                    assert(classify_from(all.skip(i as int), opt_str_view(last))
                                        == ClassifyOut::Fail(GenError::OrphanAnnotation));
                                }
                                return Err(GenError::OrphanAnnotation);
                            },
                            Some(name) => {
                                let ghost old_sel = sel@;
                                sel.push(
                                    SqlMember { name: name.clone(), type_desc: body.to_owned() },
                                );
                                proof {
                                    let m = MemberView { name: name@, ty: ann_body(a@) };
                                    assert(members_view(sel@) =~= members_view(old_sel).push(m));
                                    match classify_from(
                                        all.skip(i + 1 as int),
                                        opt_str_view(last),
                                    ) {
                                        ClassifyOut::Fail(e) => {},
                                        ClassifyOut::Members { selects, params } => {
                                            assert(members_view(old_sel).push(m) + selects
                                                =~= members_view(old_sel) + (seq![m] + selects));
                                        },
                                    }
                                }
                            },
                        }
                    },
                    Some(k) => {
                        proof {
                            lemma_find_char_from_bounds(body@, ':', 1);
                        }
                        match find_char(body, ':', k + 1) {
                            Some(k2) => {
                                proof {
                                    assert(classify_from(all.skip(i as int), opt_str_view(last))
                                        == ClassifyOut::Fail(GenError::InvalidTypeDescriptor));
                                }
                                return Err(GenError::InvalidTypeDescriptor);
                            },
                            None => {
                                let pname = trim_str(body.substring_char(0, k));
                                let pty = trim_str(body.substring_char(k + 1, blen));
                                if pty.unicode_len() == 0 {
                                    proof {
                                        assert(classify_from(
                                            all.skip(i as int),
                                            opt_str_view(last),
                                        ) == ClassifyOut::Fail(GenError::InvalidTypeDescriptor));
                                    }
                                    return Err(GenError::InvalidTypeDescriptor);
                                }
                                let ghost old_par = par@;
                                par.push(
                                    SqlMember {
                                        name: pname.to_owned(),
                                        type_desc: pty.to_owned(),
                                    },
                                );
                                proof {
                                    let m = MemberView { name: pname@, ty: pty@ };
                                    assert(ann_shape(a@) == AnnShape::ParamShape(m));
                                    assert(members_view(par@) =~= members_view(old_par).push(m));
                                    match classify_from(
                                        all.skip(i + 1 as int),
                                        opt_str_view(last),
                                    ) {
                                        ClassifyOut::Fail(e) => {},
                                        ClassifyOut::Members { selects, params } => {
                                            assert(members_view(old_par).push(m) + params
                                                =~= members_view(old_par) + (seq![m] + params));
                                        },
                                    }
                                }
                            },
                        }
                    },
                }
            },
        }
        i = i + 1;
    }
    proof {
        assert(all.skip(n as int) =~= Seq::<SpanView>::empty());
        assert(classify_from(all.skip(n as int), opt_str_view(last)) == (ClassifyOut::Members {
            selects: Seq::<MemberView>::empty(),
            params: Seq::<MemberView>::empty(),
        }));
        assert(members_view(sel@) + Seq::<MemberView>::empty() =~= members_view(sel@));
        assert(members_view(par@) + Seq::<MemberView>::empty() =~= members_view(par@));
    }
    if has_dup_exec(&sel) {
        return Err(GenError::DuplicateMemberName);
    }
    if has_dup_exec(&par) {
        return Err(GenError::DuplicateMemberName);
    }
    Ok(QueryShape { select_members: sel, param_members: par })
}

/// What an annotated SQL text means: the ordered member lists of its
/// annotations, or the first refusal — an unterminated annotation, then the
/// classifier's own refusals in span order.
pub open spec fn spec_parse(sql: Seq<char>) -> ClassifyOut {
    match spec_scan(sql) {
        None => ClassifyOut::Fail(GenError::UnterminatedAnnotation),
        Some(spans) => classify_spans(spans),
    }
}

/// Scans and classifies an annotated SQL text in one step.
pub fn parse(sql: &str) -> (r: Result<QueryShape, GenError>)
    ensures
        (match r {
            Ok(shape) => spec_parse(sql@) == (ClassifyOut::Members {
                selects: members_view(shape.select_members@),
                params: members_view(shape.param_members@),
            }),
            Err(e) => spec_parse(sql@) == ClassifyOut::Fail(e),
        }),
{
    match scan(sql) {
        Err(e) => Err(e),
        Ok(spans) => classify(&spans),
    }
}

} // verus!
