use tagged_rusqlite::error::GenError;
use tagged_rusqlite::scan::{Span, scan};

fn token(s: &str) -> Span {
    Span::Token(s.to_string())
}

fn ann(s: &str) -> Span {
    Span::Ann(s.to_string())
}

#[test]
fn scan_splits_tokens_and_annotations_in_order() {
    let spans = scan("SELECT id /*:i64*/ FROM t").unwrap();
    assert_eq!(
        spans,
        vec![
            token("SELECT"),
            token("id"),
            ann("/*:i64*/"),
            token("FROM"),
            token("t"),
        ]
    );
}

#[test]
fn scan_annotation_content_kept_verbatim() {
    let spans = scan("x /*: name : String */").unwrap();
    assert_eq!(spans, vec![token("x"), ann("/*: name : String */")]);
}

#[test]
fn scan_token_ends_where_annotation_opens() {
    let spans = scan("id/*:i64*/, name/*:String*/").unwrap();
    assert_eq!(
        spans,
        vec![
            token("id"),
            ann("/*:i64*/"),
            token(","),
            token("name"),
            ann("/*:String*/"),
        ]
    );
}

#[test]
fn scan_handles_all_whitespace_kinds() {
    let spans = scan("a\tb\nc\rd e").unwrap();
    assert_eq!(
        spans,
        vec![token("a"), token("b"), token("c"), token("d"), token("e")]
    );
}

#[test]
fn scan_empty_text_gives_no_spans() {
    let spans = scan("").unwrap();
    assert_eq!(spans, Vec::<Span>::new());
}

#[test]
fn scan_unterminated_annotation_is_refused() {
    assert_eq!(
        scan("SELECT id /*:i64"),
        Err(GenError::UnterminatedAnnotation)
    );
}

#[test]
fn scan_first_close_ends_the_annotation() {
    let spans = scan("x /*:a*/ y */").unwrap();
    assert_eq!(
        spans,
        vec![token("x"), ann("/*:a*/"), token("y"), token("*/")]
    );
}
