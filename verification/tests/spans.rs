use searchlight::span::Span;
use searchlight::span::spans_applicable;
use searchlight::span::wrap_spans;
use searchlight::value::Value;
use searchlight::value::bytes_eq;

fn b(s: &str) -> Vec<u8> {
    s.as_bytes().to_vec()
}

#[test]
fn wrap_spans_fences_one_region() {
    let r = wrap_spans(
        &b("the quick fox"),
        &vec![Span { start: 4, end: 9 }],
        &b("<b>"),
        &b("</b>"),
    );
    assert_eq!(r, b("the <b>quick</b> fox"));
}

#[test]
fn wrap_spans_without_spans_keeps_text() {
    let r = wrap_spans(&b("untouched"), &vec![], &b("<"), &b(">"));
    assert_eq!(r, b("untouched"));
}

#[test]
fn wrap_spans_handles_adjacent_regions() {
    let r = wrap_spans(
        &b("abcd"),
        &vec![Span { start: 0, end: 2 }, Span { start: 2, end: 4 }],
        &b("("),
        &b(")"),
    );
    assert_eq!(r, b("(ab)(cd)"));
}

#[test]
fn spans_applicable_accepts_sorted_disjoint_spans() {
    assert!(spans_applicable(
        &vec![Span { start: 0, end: 2 }, Span { start: 3, end: 5 }],
        5
    ));
}

#[test]
fn spans_applicable_rejects_overlap() {
    assert!(!spans_applicable(
        &vec![Span { start: 0, end: 3 }, Span { start: 2, end: 5 }],
        10
    ));
}

#[test]
fn spans_applicable_rejects_empty_span() {
    assert!(!spans_applicable(&vec![Span { start: 2, end: 2 }], 10));
}

#[test]
fn spans_applicable_rejects_out_of_bounds() {
    assert!(!spans_applicable(&vec![Span { start: 0, end: 11 }], 10));
}

#[test]
fn deep_copy_preserves_structure() {
    let v = Value::Object(vec![
        (b("a"), Value::Array(vec![Value::Number(1), Value::Strand(b("x"))])),
        (b("b"), Value::Bool(false)),
    ]);
    assert_eq!(v.deep_copy(), v);
}

#[test]
fn bytes_eq_compares_contents() {
    assert!(bytes_eq(&b("same"), &b("same")));
    assert!(!bytes_eq(&b("same"), &b("sane")));
    assert!(!bytes_eq(&b("same"), &b("sam")));
}
