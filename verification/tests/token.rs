use ditto_checker::token::Span;

#[test]
fn merge_covers_both_spans() {
    let a = Span { start_offset: 3, end_offset: 7 };
    let b = Span { start_offset: 5, end_offset: 12 };
    assert_eq!(a.merge(&b), Span { start_offset: 3, end_offset: 12 });
}
