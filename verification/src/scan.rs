//! Annotation scanner: splits SQL text into bare tokens and annotation
//! comment spans, preserving their order exactly as they appear.
//!
//! A bare token is a maximal run of characters that are neither whitespace
//! nor the start of an annotation. An annotation span runs from `/*:` to the
//! first following `*/`, both inclusive, with its content kept verbatim.
//! Text holding a `/*:` with no closing `*/` is refused.

use vstd::prelude::*;
use vstd::string::StrSliceExecFns;

use crate::error::GenError;
use crate::text::{is_ws, is_ws_char};

verus! {

/// One span of the input: a bare token or an annotation comment, each
/// carrying its text.
#[derive(Debug, Clone, PartialEq, Eq)]
pub enum Span {
    Token(String),
    Ann(String),
}

/// The mathematical value of a span: its kind and its text.
pub enum SpanView {
    Token(Seq<char>),
    Ann(Seq<char>),
}

impl View for Span {
    type V = SpanView;

    open spec fn view(&self) -> SpanView {
        match self {
            Span::Token(t) => SpanView::Token(t@),
            Span::Ann(a) => SpanView::Ann(a@),
        }
    }
}

/// The values of a span sequence.
pub open spec fn spans_view(v: Seq<Span>) -> Seq<SpanView> {
    v.map_values(|x: Span| x@)
}

/// An annotation opens at `i`: the text `/*:` stands there.
pub open spec fn ann_open_at(s: Seq<char>, i: int) -> bool {
    &&& i + 3 <= s.len()
    &&& s[i] == '/'
    &&& s[i + 1] == '*'
    &&& s[i + 2] == ':'
}

/// An annotation closes at `j`: the text `*/` stands there.
pub open spec fn ann_close_at(s: Seq<char>, j: int) -> bool {
    &&& j + 2 <= s.len()
    &&& s[j] == '*'
    &&& s[j + 1] == '/'
}

/// The least position at or after `j` where an annotation closes, if any.
pub open spec fn find_close(s: Seq<char>, j: int) -> Option<int>
    decreases s.len() - j,
{
    if j < 0 || j + 2 > s.len() {
        None
    } else if ann_close_at(s, j) {
        Some(j)
    } else {
        find_close(s, j + 1)
    }
}

pub proof fn lemma_find_close_bounds(s: Seq<char>, j: int)
    requires
        find_close(s, j) is Some,
    ensures
        j <= find_close(s, j).unwrap(),
        find_close(s, j).unwrap() + 2 <= s.len(),
        ann_close_at(s, find_close(s, j).unwrap()),
    decreases s.len() - j,
{
    if 0 <= j && j + 2 <= s.len() && !ann_close_at(s, j) {
        lemma_find_close_bounds(s, j + 1);
    }
}

/// Where the bare token that starts at `i` ends: the first position at or
/// after `i` that is past the end, whitespace, or an annotation opening.
pub open spec fn token_end(s: Seq<char>, i: int) -> int
    decreases s.len() - i,
{
    if i < 0 || i >= s.len() {
        i
    } else if is_ws(s[i]) || ann_open_at(s, i) {
        i
    } else {
        token_end(s, i + 1)
    }
}

pub proof fn lemma_token_end_bounds(s: Seq<char>, i: int)
    requires
        0 <= i <= s.len(),
    ensures
        i <= token_end(s, i) <= s.len(),
    decreases s.len() - i,
{
    if i < s.len() && !is_ws(s[i]) && !ann_open_at(s, i) {
        lemma_token_end_bounds(s, i + 1);
    }
}

/// The spans of `s` from position `i` on, in order; `None` when an
/// unterminated annotation is hit.
pub open spec fn scan_from(s: Seq<char>, i: int) -> Option<Seq<SpanView>>
    decreases s.len() - i,
    via scan_from_decreases
{
    if i < 0 || i >= s.len() {
        Some(Seq::empty())
    } else if is_ws(s[i]) {
        scan_from(s, i + 1)
    } else if ann_open_at(s, i) {
        match find_close(s, i + 3) {
            None => None,
            Some(j) => match scan_from(s, j + 2) {
                None => None,
                Some(rest) => Some(seq![SpanView::Ann(s.subrange(i, j + 2))] + rest),
            },
        }
    } else {
        match scan_from(s, token_end(s, i)) {
            None => None,
            Some(rest) => Some(seq![SpanView::Token(s.subrange(i, token_end(s, i)))] + rest),
        }
    }
}

#[via_fn]
proof fn scan_from_decreases(s: Seq<char>, i: int) {
    if 0 <= i < s.len() && !is_ws(s[i]) {
        if ann_open_at(s, i) {
            if find_close(s, i + 3) is Some {
                lemma_find_close_bounds(s, i + 3);
            }
        } else {
            assert(token_end(s, i) == token_end(s, i + 1));
            lemma_token_end_bounds(s, i + 1);
        }
    }
}

/// The whole spans of `s`, or `None` on an unterminated annotation.
pub open spec fn spec_scan(s: Seq<char>) -> Option<Seq<SpanView>> {
    scan_from(s, 0)
}

/// Shape of an annotation span's text: `/*:` at the front, `*/` at the back.
pub open spec fn ann_wf(a: Seq<char>) -> bool {
    &&& a.len() >= 5
    &&& a[0] == '/'
    &&& a[1] == '*'
    &&& a[2] == ':'
    &&& a[a.len() - 2] == '*'
    &&& a[a.len() - 1] == '/'
}

/// Every annotation span in the sequence has the annotation shape.
pub open spec fn span_wf(sp: SpanView) -> bool {
    match sp {
        SpanView::Token(t) => true,
        SpanView::Ann(a) => ann_wf(a),
    }
}

pub open spec fn spans_wf(spans: Seq<SpanView>) -> bool {
    forall|k: int| 0 <= k < spans.len() ==> span_wf(#[trigger] spans[k])
}

pub proof fn lemma_scan_from_wf(s: Seq<char>, i: int)
    requires
        0 <= i,
        scan_from(s, i) is Some,
    ensures
        spans_wf(scan_from(s, i).unwrap()),
    decreases s.len() - i,
{
    if i >= s.len() {
    } else if is_ws(s[i]) {
        lemma_scan_from_wf(s, i + 1);
    } else if ann_open_at(s, i) {
        let j = find_close(s, i + 3).unwrap();
        lemma_find_close_bounds(s, i + 3);
        lemma_scan_from_wf(s, j + 2);
        let a = s.subrange(i, j + 2);
        assert(a.len() == j + 2 - i);
        assert(a[0] == s[i] && a[1] == s[i + 1] && a[2] == s[i + 2]);
        assert(a[a.len() - 2] == s[j] && a[a.len() - 1] == s[j + 1]);
        assert(ann_wf(a));
        let rest = scan_from(s, j + 2).unwrap();
        let whole = scan_from(s, i).unwrap();
        assert(whole == seq![SpanView::Ann(a)] + rest);
        assert forall|k: int| 0 <= k < whole.len() implies span_wf(whole[k]) by {
            if k == 0 {
                assert(whole[k] == SpanView::Ann(a));
            } else {
                assert(whole[k] == rest[k - 1]);
            }
        }
    } else {
        let e = token_end(s, i);
        lemma_token_end_bounds(s, i);
        lemma_scan_from_wf(s, e);
        let rest = scan_from(s, e).unwrap();
        let whole = scan_from(s, i).unwrap();
        assert(whole == seq![SpanView::Token(s.subrange(i, e))] + rest);
        assert forall|k: int| 0 <= k < whole.len() implies span_wf(whole[k]) by {
            if k == 0 {
                assert(whole[k] == SpanView::Token(s.subrange(i, e)));
            } else {
                assert(whole[k] == rest[k - 1]);
            }
        }
    }
}

/// True exactly when `/*:` stands at `i`.
fn ann_open_exec(s: &str, i: usize, n: usize) -> (r: bool)
    requires
        n == s@.len(),
        i <= n,
    ensures
        r == ann_open_at(s@, i as int),
{
    n - i >= 3 && s.get_char(i) == '/' && s.get_char(i + 1) == '*' && s.get_char(i + 2) == ':'
}

/// Finds the first `*/` at or after `from`.
fn find_close_exec(s: &str, from: usize) -> (r: Option<usize>)
    requires
        from <= s@.len(),
    ensures
        match r {
            Some(j) => find_close(s@, from as int) == Some(j as int) && from <= j && j + 2
                <= s@.len(),
            None => find_close(s@, from as int) is None,
        },
{
    let n = s.unicode_len();
    let mut j: usize = from;
    while n - j >= 2 && !(s.get_char(j) == '*' && s.get_char(j + 1) == '/')
        invariant
            from <= j <= n,
            n == s@.len(),
            find_close(s@, from as int) == find_close(s@, j as int),
        decreases n - j,
    {
        proof {
            assert(find_close(s@, j as int) == find_close(s@, j + 1 as int));
        }
        j = j + 1;
    }
    if n - j >= 2 {
        Some(j)
    } else {
        None
    }
}

/// Finds where the bare token that starts at `i` ends.
fn token_end_exec(s: &str, i: usize) -> (r: usize)
    requires
        i < s@.len(),
        !is_ws(s@[i as int]),
        !ann_open_at(s@, i as int),
    ensures
        r as int == token_end(s@, i as int),
        i < r <= s@.len(),
{
    let n = s.unicode_len();
    proof {
        assert(token_end(s@, i as int) == token_end(s@, i + 1 as int));
    }
    let mut j: usize = i + 1;
    while j < n && !is_ws_char(s.get_char(j)) && !ann_open_exec(s, j, n)
        invariant
            i + 1 <= j <= n,
            n == s@.len(),
            token_end(s@, i as int) == token_end(s@, j as int),
        decreases n - j,
    {
        proof {
            assert(token_end(s@, j as int) == token_end(s@, j + 1 as int));
        }
        j = j + 1;
    }
    proof {
        assert(token_end(s@, j as int) == j as int);
    }
    j
}

/// Splits SQL text into its ordered spans: bare tokens and annotation
/// comments, exactly as they stand in the input. Fails exactly when a `/*:`
/// has no closing `*/`.
pub fn scan(s: &str) -> (r: Result<Vec<Span>, GenError>)
    ensures
        (match r {
            Ok(spans) => spec_scan(s@) == Some(spans_view(spans@)) && spans_wf(spans_view(spans@)),
            Err(e) => e == GenError::UnterminatedAnnotation && spec_scan(s@) is None,
        }),
{
    let n = s.unicode_len();
    let mut spans: Vec<Span> = Vec::new();
    let mut i: usize = 0;
    proof {
        assert(spans_view(spans@) =~= Seq::<SpanView>::empty());
    }
    while i < n
        invariant
            0 <= i <= n,
            n == s@.len(),
            (match scan_from(s@, i as int) {
                None => scan_from(s@, 0) is None,
                Some(rest) => scan_from(s@, 0) == Some(spans_view(spans@) + rest),
            }),
        decreases n - i,
    {
        if is_ws_char(s.get_char(i)) {
            proof {
                assert(scan_from(s@, i as int) == scan_from(s@, i + 1 as int));
            }
            i = i + 1;
        } else if ann_open_exec(s, i, n) {
            match find_close_exec(s, i + 3) {
                None => {
                    proof {
                        assert(scan_from(s@, i as int) is None);
                    }
                    return Err(GenError::UnterminatedAnnotation);
                },
                Some(j) => {
                    let a = s.substring_char(i, j + 2).to_owned();
                    let ghost old_spans = spans@;
                    let ghost av = s@.subrange(i as int, j + 2);
                    spans.push(Span::Ann(a));
                    proof {
                        assert(spans_view(spans@) =~= spans_view(old_spans).push(
                            SpanView::Ann(av),
                        ));
                        match scan_from(s@, j + 2) {
                            None => {
                                assert(scan_from(s@, i as int) is None);
                            },
                            Some(rest2) => {
                                assert(scan_from(s@, i as int) == Some(
                                    seq![SpanView::Ann(av)] + rest2,
                                ));
                                assert(spans_view(old_spans).push(SpanView::Ann(av)) + rest2
                                    =~= spans_view(old_spans) + (seq![SpanView::Ann(av)] + rest2));
                            },
                        }
                    }
                    i = j + 2;
                },
            }
        } else {
            let e = token_end_exec(s, i);
            let t = s.substring_char(i, e).to_owned();
            let ghost old_spans = spans@;
            let ghost tv = s@.subrange(i as int, e as int);
            spans.push(Span::Token(t));
            proof {
                assert(spans_view(spans@) =~= spans_view(old_spans).push(SpanView::Token(tv)));
                match scan_from(s@, e as int) {
                    None => {
                        assert(scan_from(s@, i as int) is None);
                    },
                    Some(rest2) => {
                        assert(scan_from(s@, i as int) == Some(seq![SpanView::Token(tv)] + rest2));
                        assert(spans_view(old_spans).push(SpanView::Token(tv)) + rest2
                            =~= spans_view(old_spans) + (seq![SpanView::Token(tv)] + rest2));
                    },
                }
            }
            i = e;
        }
    }
    proof {
        assert(scan_from(s@, i as int) == Some(Seq::<SpanView>::empty()));
        assert(spans_view(spans@) + Seq::<SpanView>::empty() =~= spans_view(spans@));
        lemma_scan_from_wf(s@, 0);
    }
    Ok(spans)
}

} // verus!
