use searchlight::ctx::Context;
use searchlight::ctx::IndexEntry;
use searchlight::ctx::Transaction;
use searchlight::ctx::TxState;
use searchlight::err::ErrorKind;
use searchlight::exe::QueryExecutor;
use searchlight::search::highlight;
use searchlight::search::offsets;
use searchlight::span::Span;
use searchlight::value::Thing;
use searchlight::value::Value;

fn b(s: &str) -> Vec<u8> {
    s.as_bytes().to_vec()
}

fn quick_fox_ctx() -> Context {
    Context {
        doc: Some(Value::Object(vec![(b("body"), Value::Strand(b("the quick fox")))])),
        thing: Some(Thing { tb: b("docs"), key: b("one") }),
        executors: vec![QueryExecutor { tb: b("docs"), match_refs: vec![0] }],
        txn: Transaction {
            entries: vec![IndexEntry {
                match_ref: 0,
                tb: b("docs"),
                key: b("one"),
                field: b("body"),
                spans: vec![Span { start: 4, end: 9 }],
            }],
        },
        state: TxState::Active,
        clone_allowed: true,
    }
}

#[test]
fn highlight_scenario_quick_fox() {
    let ctx = quick_fox_ctx();
    let r = highlight(
        &ctx,
        &Value::Strand(b("<b>")),
        &Value::Strand(b("</b>")),
        &Value::Number(0),
    );
    assert_eq!(
        r,
        Ok(Value::Object(vec![(b("body"), Value::Strand(b("the <b>quick</b> fox")))]))
    );
}

#[test]
fn offsets_scenario_quick_fox() {
    let ctx = quick_fox_ctx();
    let r = offsets(&ctx, &Value::Number(0));
    assert_eq!(
        r,
        Ok(Value::Object(vec![(
            b("body"),
            Value::Array(vec![Value::Array(vec![Value::Number(4), Value::Number(9)])])
        )]))
    );
}

#[test]
fn highlight_zero_matches_returns_document_unchanged() {
    let mut ctx = quick_fox_ctx();
    ctx.txn = Transaction { entries: vec![] };
    let r = highlight(
        &ctx,
        &Value::Strand(b("<b>")),
        &Value::Strand(b("</b>")),
        &Value::Number(0),
    );
    assert_eq!(
        r,
        Ok(Value::Object(vec![(b("body"), Value::Strand(b("the quick fox")))]))
    );
}

#[test]
fn highlight_absent_document_yields_empty() {
    let mut ctx = quick_fox_ctx();
    ctx.doc = None;
    let r = highlight(
        &ctx,
        &Value::Strand(b("<b>")),
        &Value::Strand(b("</b>")),
        &Value::Number(0),
    );
    assert_eq!(r, Ok(Value::Empty));
}

#[test]
fn highlight_absent_identity_yields_empty() {
    let mut ctx = quick_fox_ctx();
    ctx.thing = None;
    let r = highlight(
        &ctx,
        &Value::Strand(b("<b>")),
        &Value::Strand(b("</b>")),
        &Value::Number(0),
    );
    assert_eq!(r, Ok(Value::Empty));
}

#[test]
fn offsets_absent_document_yields_empty() {
    let mut ctx = quick_fox_ctx();
    ctx.doc = None;
    assert_eq!(offsets(&ctx, &Value::Number(0)), Ok(Value::Empty));
}

#[test]
fn offsets_absent_identity_yields_empty() {
    let mut ctx = quick_fox_ctx();
    ctx.thing = None;
    assert_eq!(offsets(&ctx, &Value::Number(0)), Ok(Value::Empty));
}

#[test]
fn absent_executor_yields_empty() {
    let mut ctx = quick_fox_ctx();
    ctx.executors = vec![QueryExecutor { tb: b("other"), match_refs: vec![0] }];
    let r = highlight(
        &ctx,
        &Value::Strand(b("<b>")),
        &Value::Strand(b("</b>")),
        &Value::Number(0),
    );
    assert_eq!(r, Ok(Value::Empty));
    assert_eq!(offsets(&ctx, &Value::Number(0)), Ok(Value::Empty));
}

#[test]
fn unserved_match_ref_yields_empty() {
    let ctx = quick_fox_ctx();
    let r = highlight(
        &ctx,
        &Value::Strand(b("<b>")),
        &Value::Strand(b("</b>")),
        &Value::Number(9),
    );
    assert_eq!(r, Ok(Value::Empty));
    assert_eq!(offsets(&ctx, &Value::Number(9)), Ok(Value::Empty));
}

#[test]
fn non_numeric_match_ref_yields_empty() {
    let ctx = quick_fox_ctx();
    assert_eq!(offsets(&ctx, &Value::Strand(b("zero"))), Ok(Value::Empty));
}

#[test]
fn finished_transaction_fails_highlight() {
    let mut ctx = quick_fox_ctx();
    ctx.state = TxState::Committed;
    let r = highlight(
        &ctx,
        &Value::Strand(b("<b>")),
        &Value::Strand(b("</b>")),
        &Value::Number(0),
    );
    match r {
        Err(e) => assert_eq!(e.kind, ErrorKind::TxFinished),
        Ok(_) => panic!("expected a failure"),
    }
}

#[test]
fn cancelled_transaction_fails_offsets() {
    let mut ctx = quick_fox_ctx();
    ctx.state = TxState::Cancelled;
    match offsets(&ctx, &Value::Number(0)) {
        Err(e) => {
            assert_eq!(e.kind, ErrorKind::TxFinished);
            assert_eq!(e.detail, b("transaction finished"));
        },
        Ok(_) => panic!("expected a failure"),
    }
}

#[test]
fn forbidden_clone_fails_highlight() {
    let mut ctx = quick_fox_ctx();
    ctx.clone_allowed = false;
    let r = highlight(
        &ctx,
        &Value::Strand(b("<b>")),
        &Value::Strand(b("</b>")),
        &Value::Number(0),
    );
    match r {
        Err(e) => {
            assert_eq!(e.kind, ErrorKind::TxCloneForbidden);
            assert_eq!(e.detail, b("transaction clone not allowed"));
        },
        Ok(_) => panic!("expected a failure"),
    }
}

#[test]
fn non_text_fields_pass_through() {
    let mut ctx = quick_fox_ctx();
    ctx.doc = Some(Value::Object(vec![
        (b("body"), Value::Strand(b("the quick fox"))),
        (b("count"), Value::Number(3)),
        (b("tags"), Value::Array(vec![Value::Strand(b("quick"))])),
    ]));
    let r = highlight(&ctx, &Value::Strand(b("[")), &Value::Strand(b("]")), &Value::Number(0));
    assert_eq!(
        r,
        Ok(Value::Object(vec![
            (b("body"), Value::Strand(b("the [quick] fox"))),
            (b("count"), Value::Number(3)),
            (b("tags"), Value::Array(vec![Value::Strand(b("quick"))])),
        ]))
    );
}

#[test]
fn out_of_bounds_spans_leave_field_unchanged() {
    let mut ctx = quick_fox_ctx();
    ctx.txn = Transaction {
        entries: vec![IndexEntry {
            match_ref: 0,
            tb: b("docs"),
            key: b("one"),
            field: b("body"),
            spans: vec![Span { start: 4, end: 100 }],
        }],
    };
    let r = highlight(&ctx, &Value::Strand(b("[")), &Value::Strand(b("]")), &Value::Number(0));
    assert_eq!(
        r,
        Ok(Value::Object(vec![(b("body"), Value::Strand(b("the quick fox")))]))
    );
}

#[test]
fn multiple_spans_wrap_left_to_right() {
    let mut ctx = quick_fox_ctx();
    ctx.doc = Some(Value::Object(vec![(b("body"), Value::Strand(b("aaa bbb aaa")))]));
    ctx.txn = Transaction {
        entries: vec![IndexEntry {
            match_ref: 0,
            tb: b("docs"),
            key: b("one"),
            field: b("body"),
            spans: vec![Span { start: 0, end: 3 }, Span { start: 8, end: 11 }],
        }],
    };
    let r = highlight(&ctx, &Value::Strand(b("[")), &Value::Strand(b("]")), &Value::Number(0));
    assert_eq!(
        r,
        Ok(Value::Object(vec![(b("body"), Value::Strand(b("[aaa] bbb [aaa]")))]))
    );
}

#[test]
fn offsets_omit_fields_without_matches() {
    let mut ctx = quick_fox_ctx();
    ctx.txn = Transaction {
        entries: vec![
            IndexEntry {
                match_ref: 0,
                tb: b("docs"),
                key: b("one"),
                field: b("body"),
                spans: vec![],
            },
            IndexEntry {
                match_ref: 0,
                tb: b("docs"),
                key: b("one"),
                field: b("title"),
                spans: vec![Span { start: 0, end: 2 }],
            },
        ],
    };
    let r = offsets(&ctx, &Value::Number(0));
    assert_eq!(
        r,
        Ok(Value::Object(vec![(
            b("title"),
            Value::Array(vec![Value::Array(vec![Value::Number(0), Value::Number(2)])])
        )]))
    );
}

#[test]
fn entries_of_other_records_are_ignored() {
    let mut ctx = quick_fox_ctx();
    ctx.txn = Transaction {
        entries: vec![
            IndexEntry {
                match_ref: 0,
                tb: b("docs"),
                key: b("two"),
                field: b("body"),
                spans: vec![Span { start: 0, end: 3 }],
            },
            IndexEntry {
                match_ref: 1,
                tb: b("docs"),
                key: b("one"),
                field: b("body"),
                spans: vec![Span { start: 0, end: 3 }],
            },
        ],
    };
    let r = highlight(&ctx, &Value::Strand(b("[")), &Value::Strand(b("]")), &Value::Number(0));
    assert_eq!(
        r,
        Ok(Value::Object(vec![(b("body"), Value::Strand(b("the quick fox")))]))
    );
}

#[test]
fn nested_texts_in_a_field_are_wrapped() {
    let mut ctx = quick_fox_ctx();
    ctx.doc = Some(Value::Object(vec![(
        b("body"),
        Value::Array(vec![Value::Strand(b("abc")), Value::Number(7), Value::Strand(b("abd"))]),
    )]));
    ctx.txn = Transaction {
        entries: vec![IndexEntry {
            match_ref: 0,
            tb: b("docs"),
            key: b("one"),
            field: b("body"),
            spans: vec![Span { start: 0, end: 2 }],
        }],
    };
    let r = highlight(&ctx, &Value::Strand(b("[")), &Value::Strand(b("]")), &Value::Number(0));
    assert_eq!(
        r,
        Ok(Value::Object(vec![(
            b("body"),
            Value::Array(vec![
                Value::Strand(b("[ab]c")),
                Value::Number(7),
                Value::Strand(b("[ab]d")),
            ])
        )]))
    );
}

#[test]
fn cloned_handle_shares_the_snapshot() {
    let ctx = quick_fox_ctx();
    match ctx.try_clone_transaction() {
        Ok(t) => assert_eq!(t, ctx.txn),
        Err(_) => panic!("expected a clone"),
    }
}

#[test]
fn executor_lookup_finds_the_table() {
    let ctx = quick_fox_ctx();
    assert!(ctx.get_query_executor(&b("docs")).is_some());
    assert!(ctx.get_query_executor(&b("users")).is_none());
}

#[test]
fn non_object_document_passes_through() {
    let mut ctx = quick_fox_ctx();
    ctx.doc = Some(Value::Strand(b("plain")));
    let r = highlight(&ctx, &Value::Strand(b("[")), &Value::Strand(b("]")), &Value::Number(0));
    assert_eq!(r, Ok(Value::Strand(b("plain"))));
}

#[test]
fn offsets_report_spans_in_ascending_order() {
    let mut ctx = quick_fox_ctx();
    ctx.txn = Transaction {
        entries: vec![IndexEntry {
            match_ref: 0,
            tb: b("docs"),
            key: b("one"),
            field: b("body"),
            spans: vec![Span { start: 0, end: 3 }, Span { start: 4, end: 9 }],
        }],
    };
    let r = offsets(&ctx, &Value::Number(0));
    assert_eq!(
        r,
        Ok(Value::Object(vec![(
            b("body"),
            Value::Array(vec![
                Value::Array(vec![Value::Number(0), Value::Number(3)]),
                Value::Array(vec![Value::Number(4), Value::Number(9)]),
            ])
        )]))
    );
}
