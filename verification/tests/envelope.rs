use searchlight::Duration;
use searchlight::decimal;
use searchlight::err::Error;
use searchlight::err::ErrorKind;
use searchlight::response::QueryType;
use searchlight::response::Response;
use searchlight::value::Value;

fn b(s: &str) -> Vec<u8> {
    s.as_bytes().to_vec()
}

#[test]
fn decimal_renders_digits() {
    assert_eq!(decimal(0), b("0"));
    assert_eq!(decimal(7), b("7"));
    assert_eq!(decimal(905), b("905"));
    assert_eq!(decimal(u64::MAX), b("18446744073709551615"));
}

#[test]
fn duration_text_millis() {
    assert_eq!(Duration { ms: 12 }.text(), b("12ms"));
    assert_eq!(Duration { ms: 0 }.text(), b("0ms"));
}

#[test]
fn speed_matches_duration_text() {
    let r = Response {
        time: Duration { ms: 250 },
        result: Ok(Value::Empty),
        query_type: QueryType::Other,
    };
    assert_eq!(r.speed(), b("250ms"));
}

#[test]
fn envelope_success_serializes_ok() {
    let r = Response {
        time: Duration { ms: 12 },
        result: Ok(Value::Number(42)),
        query_type: QueryType::Other,
    };
    let wire = r.serialize();
    assert_eq!(
        wire,
        Value::Object(vec![
            (b("time"), Value::Strand(b("12ms"))),
            (b("status"), Value::Strand(b("OK"))),
            (b("result"), Value::Number(42)),
        ])
    );
}

#[test]
fn envelope_failure_serializes_err() {
    let r = Response {
        time: Duration { ms: 7 },
        result: Err(Error { kind: ErrorKind::Query, detail: b("field not found") }),
        query_type: QueryType::Other,
    };
    let wire = r.serialize();
    assert_eq!(
        wire,
        Value::Object(vec![
            (b("time"), Value::Strand(b("7ms"))),
            (b("status"), Value::Strand(b("ERR"))),
            (b("detail"), Value::Strand(b("field not found"))),
        ])
    );
}

#[test]
fn output_returns_success_unchanged() {
    let r = Response {
        time: Duration { ms: 1 },
        result: Ok(Value::Strand(b("hello"))),
        query_type: QueryType::Live,
    };
    assert_eq!(r.output(), Ok(Value::Strand(b("hello"))));
}

#[test]
fn output_returns_failure_unchanged() {
    let r = Response {
        time: Duration { ms: 3 },
        result: Err(Error { kind: ErrorKind::Query, detail: b("field not found") }),
        query_type: QueryType::Kill,
    };
    match r.output() {
        Err(e) => {
            assert_eq!(e.kind, ErrorKind::Query);
            assert_eq!(e.detail, b("field not found"));
        },
        Ok(_) => panic!("expected a failure"),
    }
}

#[test]
fn success_envelope_keeps_structured_result() {
    let doc = Value::Object(vec![(b("a"), Value::Array(vec![Value::Bool(true), Value::Empty]))]);
    let r = Response {
        time: Duration { ms: 5 },
        result: Ok(doc),
        query_type: QueryType::Other,
    };
    let wire = r.serialize();
    match wire {
        Value::Object(fields) => {
            assert_eq!(fields.len(), 3);
            assert_eq!(fields[2].0, b("result"));
            assert_eq!(
                fields[2].1,
                Value::Object(vec![(
                    b("a"),
                    Value::Array(vec![Value::Bool(true), Value::Empty])
                )])
            );
        },
        _ => panic!("expected an object"),
    }
}
