//! The search executor: per-table match resolution against a transaction
//! snapshot, computing highlighted values or positional offsets.

use vstd::prelude::*;
use crate::ctx::IndexEntryModel;
use crate::ctx::Transaction;
use crate::span::Span;
use crate::span::spans_applicable;
use crate::span::spans_wf;
use crate::span::spans_within;
use crate::span::wrap;
use crate::span::wrap_spans;
use crate::value::Thing;
use crate::value::ThingModel;
use crate::value::Value;
use crate::value::ValueModel;
use crate::value::bytes_copy;
use crate::value::bytes_eq;
use crate::value::fields_model;
use crate::value::items_model;
use crate::value::lemma_fields_model;
use crate::value::lemma_fields_model_push;
use crate::value::lemma_items_model;
use crate::value::value_model;

verus! {

broadcast use vstd::std_specs::vec::group_vec_axioms;

/// The model of a search executor: the table it is bound to and the match
/// references its index serves.
pub ghost struct QueryExecutorModel {
    pub tb: Seq<u8>,
    pub match_refs: Seq<u64>,
}

/// A search executor: the accessor of one table's full-text index, bound to
/// one statement. It is registered once per statement per table and is
/// read-only for the statement's duration.
#[derive(Debug)]
pub struct QueryExecutor {
    /// The table this executor's index belongs to.
    pub tb: Vec<u8>,
    /// The match references the index serves for the current statement.
    pub match_refs: Vec<u64>,
}

impl View for QueryExecutor {
    type V = QueryExecutorModel;

    open spec fn view(&self) -> QueryExecutorModel {
        QueryExecutorModel { tb: self.tb@, match_refs: self.match_refs@ }
    }
}

/// The registered executors, in order.
pub open spec fn executors_model(s: Seq<QueryExecutor>) -> Seq<QueryExecutorModel> {
    Seq::new(s.len(), |i: int| s[i]@)
}

/// The first executor registered for `tb`, if any.
pub open spec fn lookup_executor(s: Seq<QueryExecutorModel>, tb: Seq<u8>) -> Option<
    QueryExecutorModel,
>
    decreases s.len(),
{
    if s.len() == 0 {
        None
    } else if s[0].tb == tb {
        Some(s[0])
    } else {
        lookup_executor(s.skip(1), tb)
    }
}

/// The match reference a dynamic value selects: a non-negative number;
/// anything else selects nothing.
pub open spec fn match_ref_model(v: ValueModel) -> Option<u64> {
    match v {
        ValueModel::Number(n) => if 0 <= n {
            Some(n as u64)
        } else {
            None
        },
        _ => None,
    }
}

/// Reads a match reference out of a dynamic value.
pub fn match_ref_of(v: &Value) -> (r: Option<u64>)
    ensures
        r == match_ref_model(v@),
{
    match v {
        Value::Number(n) => {
            if *n >= 0 {
                Some(*n as u64)
            } else {
                None
            }
        },
        _ => None,
    }
}

/// The text a dynamic value carries: its bytes if it is text, nothing
/// otherwise.
pub open spec fn text_model(v: ValueModel) -> Seq<u8> {
    match v {
        ValueModel::Strand(s) => s,
        _ => Seq::empty(),
    }
}

/// Reads the text out of a dynamic value.
pub fn text_of(v: &Value) -> (r: Vec<u8>)
    ensures
        r@ == text_model(v@),
{
    match v {
        Value::Strand(s) => bytes_copy(s),
        _ => {
            let r: Vec<u8> = Vec::new();
            proof {
                assert(r@ =~= Seq::<u8>::empty());
            }
            r
        },
    }
}

/// The spans of one field of the current record, as collected from the
/// snapshot.
#[derive(Debug)]
pub struct FieldSpans {
    pub field: Vec<u8>,
    pub spans: Vec<Span>,
}

impl View for FieldSpans {
    type V = (Seq<u8>, Seq<Span>);

    open spec fn view(&self) -> (Seq<u8>, Seq<Span>) {
        (self.field@, self.spans@)
    }
}

/// The collected field spans, in order.
pub open spec fn field_spans_model(s: Seq<FieldSpans>) -> Seq<(Seq<u8>, Seq<Span>)> {
    Seq::new(s.len(), |i: int| s[i]@)
}

/// Whether a snapshot entry belongs to match reference `mr` on the record
/// `thg`.
pub open spec fn entry_matches(e: IndexEntryModel, mr: u64, thg: ThingModel) -> bool {
    e.match_ref == mr && e.tb == thg.tb && e.key == thg.key
}

/// The spans of every field of record `thg` for match reference `mr`, in
/// snapshot order.
pub open spec fn collect_spans(entries: Seq<IndexEntryModel>, mr: u64, thg: ThingModel) -> Seq<
    (Seq<u8>, Seq<Span>),
>
    decreases entries.len(),
{
    if entries.len() == 0 {
        Seq::empty()
    } else if entry_matches(entries[0], mr, thg) {
        seq![(entries[0].field, entries[0].spans)] + collect_spans(entries.skip(1), mr, thg)
    } else {
        collect_spans(entries.skip(1), mr, thg)
    }
}

/// The spans collected for field `field`, if any.
pub open spec fn spans_lookup(fs: Seq<(Seq<u8>, Seq<Span>)>, field: Seq<u8>) -> Option<Seq<Span>>
    decreases fs.len(),
{
    if fs.len() == 0 {
        None
    } else if fs[0].0 == field {
        Some(fs[0].1)
    } else {
        spans_lookup(fs.skip(1), field)
    }
}

/// What wrapping does to one value of a spanned field: a terminal text with
/// applicable spans gets each spanned region fenced by `pre` and `suf`;
/// sequences and mappings keep their shape and are wrapped element by
/// element; non-text terminals pass through untouched.
pub open spec fn wrap_value_model(v: ValueModel, sp: Seq<Span>, pre: Seq<u8>, suf: Seq<u8>) -> ValueModel
    decreases v,
{
    match v {
        ValueModel::Strand(t) => if spans_wf(sp) && spans_within(sp, t.len() as int) {
            ValueModel::Strand(wrap(t, sp, pre, suf))
        } else {
            v
        },
        ValueModel::Array(items) => ValueModel::Array(wrap_items_model(items, sp, pre, suf)),
        ValueModel::Object(fields) => ValueModel::Object(wrap_fields_model(fields, sp, pre, suf)),
        _ => v,
    }
}

/// Wraps a sequence's elements, in order.
pub open spec fn wrap_items_model(
    items: Seq<ValueModel>,
    sp: Seq<Span>,
    pre: Seq<u8>,
    suf: Seq<u8>,
) -> Seq<ValueModel>
    decreases items,
{
    if items.len() == 0 {
        Seq::empty()
    } else {
        wrap_items_model(items.drop_last(), sp, pre, suf).push(
            wrap_value_model(items.last(), sp, pre, suf),
        )
    }
}

/// Wraps a mapping's field values, in order, keeping the keys.
pub open spec fn wrap_fields_model(
    fields: Seq<(Seq<u8>, ValueModel)>,
    sp: Seq<Span>,
    pre: Seq<u8>,
    suf: Seq<u8>,
) -> Seq<(Seq<u8>, ValueModel)>
    decreases fields,
{
    if fields.len() == 0 {
        Seq::empty()
    } else {
        wrap_fields_model(fields.drop_last(), sp, pre, suf).push(
            (fields.last().0, wrap_value_model(fields.last().1, sp, pre, suf)),
        )
    }
}

/// `wrap_items_model` maps the sequence pointwise.
pub proof fn lemma_wrap_items_model(items: Seq<ValueModel>, sp: Seq<Span>, pre: Seq<u8>, suf: Seq<u8>)
    ensures
        wrap_items_model(items, sp, pre, suf).len() == items.len(),
        forall|i: int|
            0 <= i < items.len() ==> #[trigger] wrap_items_model(items, sp, pre, suf)[i]
                == wrap_value_model(items[i], sp, pre, suf),
    decreases items.len(),
{
    if items.len() > 0 {
        lemma_wrap_items_model(items.drop_last(), sp, pre, suf);
    }
}

/// `wrap_fields_model` maps the fields pointwise.
pub proof fn lemma_wrap_fields_model(
    fields: Seq<(Seq<u8>, ValueModel)>,
    sp: Seq<Span>,
    pre: Seq<u8>,
    suf: Seq<u8>,
)
    ensures
        wrap_fields_model(fields, sp, pre, suf).len() == fields.len(),
        forall|i: int|
            0 <= i < fields.len() ==> #[trigger] wrap_fields_model(fields, sp, pre, suf)[i] == (
                fields[i].0,
                wrap_value_model(fields[i].1, sp, pre, suf),
            ),
    decreases fields.len(),
{
    if fields.len() > 0 {
        lemma_wrap_fields_model(fields.drop_last(), sp, pre, suf);
    }
}

/// Spans that hold no match, and spans the index would never report, wrap
/// every value to itself.
pub proof fn lemma_wrap_value_inert(v: ValueModel, sp: Seq<Span>, pre: Seq<u8>, suf: Seq<u8>)
    requires
        sp.len() == 0 || !spans_wf(sp),
    ensures
        wrap_value_model(v, sp, pre, suf) == v,
    decreases v,
{
    match v {
        ValueModel::Strand(t) => {
            if sp.len() == 0 {
                assert(sp =~= Seq::<Span>::empty());
                crate::span::lemma_wrap_no_spans(t, pre, suf);
            }
        },
        ValueModel::Array(items) => {
            lemma_wrap_items_model(items, sp, pre, suf);
            assert forall|i: int| 0 <= i < items.len() implies #[trigger] wrap_items_model(
                items,
                sp,
                pre,
                suf,
            )[i] == items[i] by {
                lemma_wrap_value_inert(items[i], sp, pre, suf);
            }
            assert(wrap_items_model(items, sp, pre, suf) =~= items);
        },
        ValueModel::Object(fields) => {
            lemma_wrap_fields_model(fields, sp, pre, suf);
            assert forall|i: int| 0 <= i < fields.len() implies #[trigger] wrap_fields_model(
                fields,
                sp,
                pre,
                suf,
            )[i] == fields[i] by {
                lemma_wrap_value_inert(fields[i].1, sp, pre, suf);
            }
            assert(wrap_fields_model(fields, sp, pre, suf) =~= fields);
        },
        _ => {},
    }
}

/// What highlighting does to one field of the document: a field with
/// collected spans is wrapped by [`wrap_value_model`]; a field without
/// spans passes through untouched.
pub open spec fn highlight_field_model(
    k: Seq<u8>,
    v: ValueModel,
    fs: Seq<(Seq<u8>, Seq<Span>)>,
    pre: Seq<u8>,
    suf: Seq<u8>,
) -> ValueModel {
    match spans_lookup(fs, k) {
        Some(sp) => wrap_value_model(v, sp, pre, suf),
        None => v,
    }
}

/// What highlighting does to the whole document: a mapping keeps its shape
/// and every field is transformed by [`highlight_field_model`]; any other
/// value passes through untouched.
pub open spec fn highlight_model(
    doc: ValueModel,
    fs: Seq<(Seq<u8>, Seq<Span>)>,
    pre: Seq<u8>,
    suf: Seq<u8>,
) -> ValueModel {
    match doc {
        ValueModel::Object(fields) => ValueModel::Object(
            Seq::new(
                fields.len(),
                |i: int| (fields[i].0, highlight_field_model(fields[i].0, fields[i].1, fs, pre, suf)),
            ),
        ),
        _ => doc,
    }
}

/// Collects from the snapshot the spans of every field of record `thg` for
/// match reference `mr`.
pub fn collect_matching_spans(txn: &Transaction, mr: u64, thg: &Thing) -> (r: Vec<FieldSpans>)
    ensures
        field_spans_model(r@) == collect_spans(txn@, mr, thg@),
{
    let ghost all = collect_spans(txn@, mr, thg@);
    let mut out: Vec<FieldSpans> = Vec::new();
    let mut i: usize = 0;
    proof {
        assert(txn@.skip(0) =~= txn@);
        assert(field_spans_model(out@) + collect_spans(txn@, mr, thg@) =~= all);
    }
    while i < txn.entries.len()
        invariant
            i <= txn.entries@.len(),
            txn@.len() == txn.entries@.len(),
            forall|j: int| 0 <= j < txn@.len() ==> (#[trigger] txn@[j]) == txn.entries@[j]@,
            field_spans_model(out@) + collect_spans(txn@.skip(i as int), mr, thg@) == all,
        decreases txn.entries@.len() - i,
    {
        let e = &txn.entries[i];
        proof {
            assert(txn@.skip(i as int)[0] == txn@[i as int]);
            assert(txn@.skip(i as int).skip(1) =~= txn@.skip(i + 1));
        }
        if e.match_ref == mr && bytes_eq(&e.tb, &thg.tb) && bytes_eq(&e.key, &thg.key) {
            let fs = FieldSpans {
                field: bytes_copy(&e.field),
                spans: crate::ctx::spans_copy(&e.spans),
            };
            out.push(fs);
            proof {
                assert(field_spans_model(out@) =~= field_spans_model(out@.drop_last()) + seq![
                    (txn@[i as int].field, txn@[i as int].spans),
                ]);
                assert(field_spans_model(out@) + collect_spans(txn@.skip(i + 1), mr, thg@) =~= all);
            }
        } else {
            proof {
                assert(!entry_matches(txn@[i as int], mr, thg@));
            }
        }
        i = i + 1;
    }
    proof {
        assert(txn@.skip(i as int) =~= Seq::<IndexEntryModel>::empty());
        assert(field_spans_model(out@) =~= all);
    }
    out
}

/// Finds the collected spans of one field.
pub fn lookup_field_spans<'a>(fs: &'a Vec<FieldSpans>, field: &Vec<u8>) -> (r: Option<
    &'a Vec<Span>,
>)
    ensures
        match r {
            Some(sp) => spans_lookup(field_spans_model(fs@), field@) == Some(sp@),
            None => spans_lookup(field_spans_model(fs@), field@) is None,
        },
{
    let ghost fsm = field_spans_model(fs@);
    let mut i: usize = 0;
    proof {
        assert(fsm.skip(0) =~= fsm);
    }
    while i < fs.len()
        invariant
            i <= fs@.len(),
            fsm == field_spans_model(fs@),
            fsm.len() == fs@.len(),
            forall|j: int| 0 <= j < fsm.len() ==> (#[trigger] fsm[j]) == fs@[j]@,
            spans_lookup(fsm, field@) == spans_lookup(fsm.skip(i as int), field@),
        decreases fs@.len() - i,
    {
        proof {
            assert(fsm.skip(i as int)[0] == fsm[i as int]);
            assert(fsm.skip(i as int).skip(1) =~= fsm.skip(i + 1));
        }
        if bytes_eq(&fs[i].field, field) {
            return Some(&fs[i].spans);
        }
        i = i + 1;
    }
    proof {
        assert(fsm.skip(i as int) =~= Seq::<(Seq<u8>, Seq<Span>)>::empty());
    }
    None
}

/// Wraps one value of a spanned field: the executable form of
/// [`wrap_value_model`].
#[verifier::rlimit(50)]
fn wrap_value(v: &Value, sp: &Vec<Span>, pre: &Vec<u8>, suf: &Vec<u8>) -> (r: Value)
    ensures
        r@ == wrap_value_model(v@, sp@, pre@, suf@),
    decreases v,
{
    match v {
        Value::Strand(t) => {
            if spans_applicable(sp, t.len()) {
                Value::Strand(wrap_spans(t, sp, pre, suf))
            } else {
                Value::Strand(bytes_copy(t))
            }
        },
        Value::Array(items) => Value::Array(wrap_items(items, sp, pre, suf)),
        Value::Object(fields) => Value::Object(wrap_fields(fields, sp, pre, suf)),
        other => other.deep_copy(),
    }
}

/// Wraps a sequence's elements pointwise.
fn wrap_items(items: &Vec<Value>, sp: &Vec<Span>, pre: &Vec<u8>, suf: &Vec<u8>) -> (r: Vec<Value>)
    ensures
        items_model(r@) == wrap_items_model(items_model(items@), sp@, pre@, suf@),
    decreases items,
{
    let mut out: Vec<Value> = Vec::new();
    let mut i: usize = 0;
    while i < items.len()
        invariant
            i <= items@.len(),
            out@.len() == i,
            forall|j: int|
                0 <= j < i ==> value_model(#[trigger] out@[j]) == wrap_value_model(
                    value_model(items@[j]),
                    sp@,
                    pre@,
                    suf@,
                ),
        decreases items@.len() - i,
    {
        proof {
            assert(decreases_to!(*items => items@[i as int]));
        }
        let w = wrap_value(&items[i], sp, pre, suf);
        out.push(w);
        i = i + 1;
    }
    proof {
        lemma_items_model(out@);
        lemma_items_model(items@);
        lemma_wrap_items_model(items_model(items@), sp@, pre@, suf@);
        assert(items_model(out@) =~= wrap_items_model(items_model(items@), sp@, pre@, suf@));
    }
    out
}

/// Wraps a mapping's field values pointwise, keeping the keys.
fn wrap_fields(
    fields: &Vec<(Vec<u8>, Value)>,
    sp: &Vec<Span>,
    pre: &Vec<u8>,
    suf: &Vec<u8>,
) -> (r: Vec<(Vec<u8>, Value)>)
    ensures
        fields_model(r@) == wrap_fields_model(fields_model(fields@), sp@, pre@, suf@),
    decreases fields,
{
    let mut out: Vec<(Vec<u8>, Value)> = Vec::new();
    let mut i: usize = 0;
    while i < fields.len()
        invariant
            i <= fields@.len(),
            out@.len() == i,
            forall|j: int|
                0 <= j < i ==> (#[trigger] out@[j].0@) == fields@[j].0@ && value_model(out@[j].1)
                    == wrap_value_model(value_model(fields@[j].1), sp@, pre@, suf@),
        decreases fields@.len() - i,
    {
        let k = bytes_copy(&fields[i].0);
        proof {
            assert(decreases_to!(*fields => fields@[i as int]));
        }
        let w = wrap_value(&fields[i].1, sp, pre, suf);
        out.push((k, w));
        i = i + 1;
    }
    proof {
        lemma_fields_model(out@);
        lemma_fields_model(fields@);
        lemma_wrap_fields_model(fields_model(fields@), sp@, pre@, suf@);
        assert(fields_model(out@) =~= wrap_fields_model(fields_model(fields@), sp@, pre@, suf@));
    }
    out
}

/// Highlights one field of the document: the executable form of
/// [`highlight_field_model`].
fn highlight_field(k: &Vec<u8>, v: &Value, fs: &Vec<FieldSpans>, pre: &Vec<u8>, suf: &Vec<u8>) -> (r:
    Value)
    ensures
        r@ == highlight_field_model(k@, v@, field_spans_model(fs@), pre@, suf@),
{
    match lookup_field_spans(fs, k) {
        Some(sp) => wrap_value(v, sp, pre, suf),
        None => v.deep_copy(),
    }
}

/// Highlights one document: every field with collected spans has the
/// terminal texts inside it wrapped, keeping the document's shape;
/// everything else is unchanged.
pub fn highlight_doc(doc: &Value, fs: &Vec<FieldSpans>, pre: &Vec<u8>, suf: &Vec<u8>) -> (r: Value)
    ensures
        r@ == highlight_model(doc@, field_spans_model(fs@), pre@, suf@),
{
    let ghost fsm = field_spans_model(fs@);
    match doc {
        Value::Object(fields) => {
            let mut out: Vec<(Vec<u8>, Value)> = Vec::new();
            let mut i: usize = 0;
            while i < fields.len()
                invariant
                    i <= fields@.len(),
                    fsm == field_spans_model(fs@),
                    out@.len() == i,
                    forall|j: int|
                        0 <= j < i ==> (#[trigger] out@[j].0@) == fields@[j].0@ && value_model(
                            out@[j].1,
                        ) == highlight_field_model(
                            fields@[j].0@,
                            value_model(fields@[j].1),
                            fsm,
                            pre@,
                            suf@,
                        ),
                decreases fields@.len() - i,
            {
                let k = bytes_copy(&fields[i].0);
                let nv: Value = highlight_field(&fields[i].0, &fields[i].1, fs, pre, suf);
                out.push((k, nv));
                i = i + 1;
            }
            let r = Value::Object(out);
            proof {
                lemma_fields_model(out@);
                lemma_fields_model(fields@);
                assert(fields_model(out@) =~= highlight_model(doc@, fsm, pre@, suf@)->Object_0);
            }
            r
        },
        v => {
            let r = v.deep_copy();
            proof {
                assert(!(doc@ is Object));
            }
            r
        },
    }
}

/// One span as a dynamic value: the pair of its start and end positions.
pub open spec fn span_pair_model(sp: Span) -> ValueModel {
    ValueModel::Array(
        seq![ValueModel::Number(sp.start as int), ValueModel::Number(sp.end as int)],
    )
}

/// One field's spans as dynamic values, in order.
pub open spec fn spans_value_model(sp: Seq<Span>) -> Seq<ValueModel> {
    Seq::new(sp.len(), |i: int| span_pair_model(sp[i]))
}

/// The offsets report: every field with at least one span, in collection
/// order, mapped to its spans as pairs; fields without spans are omitted.
pub open spec fn offsets_model(fs: Seq<(Seq<u8>, Seq<Span>)>) -> Seq<(Seq<u8>, ValueModel)>
    decreases fs.len(),
{
    if fs.len() == 0 {
        Seq::empty()
    } else if fs[0].1.len() > 0 {
        seq![(fs[0].0, ValueModel::Array(spans_value_model(fs[0].1)))] + offsets_model(fs.skip(1))
    } else {
        offsets_model(fs.skip(1))
    }
}

/// Renders one span as the dynamic pair of its positions.
fn span_pair(sp: Span) -> (r: Value)
    ensures
        r@ == span_pair_model(sp),
{
    let mut items: Vec<Value> = Vec::new();
    items.push(Value::Number(sp.start as i64));
    items.push(Value::Number(sp.end as i64));
    let r = Value::Array(items);
    proof {
        lemma_items_model(items@);
        assert(items_model(items@) =~= span_pair_model(sp)->Array_0);
    }
    r
}

/// Renders one field's spans as a dynamic array of pairs.
fn spans_value(sp: &Vec<Span>) -> (r: Value)
    ensures
        r@ == ValueModel::Array(spans_value_model(sp@)),
{
    let mut items: Vec<Value> = Vec::new();
    let mut i: usize = 0;
    while i < sp.len()
        invariant
            i <= sp@.len(),
            items@.len() == i,
            forall|j: int| 0 <= j < i ==> value_model(#[trigger] items@[j]) == span_pair_model(
                sp@[j],
            ),
        decreases sp@.len() - i,
    {
        let p = span_pair(sp[i]);
        items.push(p);
        i = i + 1;
    }
    let r = Value::Array(items);
    proof {
        lemma_items_model(items@);
        assert(items_model(items@) =~= spans_value_model(sp@));
    }
    r
}

/// Builds the offsets report for the collected spans: the executable form of
/// [`offsets_model`].
pub fn offsets_doc(fs: &Vec<FieldSpans>) -> (r: Value)
    ensures
        r@ == ValueModel::Object(offsets_model(field_spans_model(fs@))),
{
    let ghost fsm = field_spans_model(fs@);
    let ghost all = offsets_model(fsm);
    let mut out: Vec<(Vec<u8>, Value)> = Vec::new();
    let mut i: usize = 0;
    proof {
        assert(fsm.skip(0) =~= fsm);
        assert(fields_model(out@) + offsets_model(fsm) =~= all);
    }
    while i < fs.len()
        invariant
            i <= fs@.len(),
            fsm == field_spans_model(fs@),
            fsm.len() == fs@.len(),
            forall|j: int| 0 <= j < fsm.len() ==> (#[trigger] fsm[j]) == fs@[j]@,
            fields_model(out@) + offsets_model(fsm.skip(i as int)) == all,
        decreases fs@.len() - i,
    {
        proof {
            assert(fsm.skip(i as int)[0] == fsm[i as int]);
            assert(fsm.skip(i as int).skip(1) =~= fsm.skip(i + 1));
        }
        if fs[i].spans.len() > 0 {
            let k = bytes_copy(&fs[i].field);
            let v = spans_value(&fs[i].spans);
            proof {
                lemma_fields_model_push(out@, (k, v));
            }
            out.push((k, v));
            proof {
                assert(fields_model(out@) =~= fields_model(out@.drop_last()).push(
                    (fsm[i as int].0, ValueModel::Array(spans_value_model(fsm[i as int].1))),
                ));
                assert(fields_model(out@) + offsets_model(fsm.skip(i + 1)) =~= all);
            }
        }
        i = i + 1;
    }
    let r = Value::Object(out);
    proof {
        assert(fsm.skip(i as int) =~= Seq::<(Seq<u8>, Seq<Span>)>::empty());
        assert(fields_model(out@) =~= all);
    }
    r
}

impl QueryExecutor {
    /// Whether this executor's index serves the match reference.
    pub fn serves(&self, mr: u64) -> (r: bool)
        ensures
            r == self@.match_refs.contains(mr),
    {
        let mut i: usize = 0;
        while i < self.match_refs.len()
            invariant
                i <= self.match_refs@.len(),
                forall|j: int| 0 <= j < i ==> self.match_refs@[j] != mr,
            decreases self.match_refs@.len() - i,
        {
            if self.match_refs[i] == mr {
                proof {
                    assert(self.match_refs@[i as int] == mr);
                }
                return true;
            }
            i = i + 1;
        }
        proof {
            assert(!self.match_refs@.contains(mr));
        }
        false
    }

    /// Resolves all spans of the match reference on the record and fences
    /// every matched region of the document's terminal texts with the
    /// marker strings, preserving all unmatched text and the document's
    /// shape. A match reference the index does not serve yields an absent
    /// value.
    pub fn highlight(
        &self,
        txn: &Transaction,
        thg: &Thing,
        prefix: &Value,
        suffix: &Value,
        match_ref: &Value,
        doc: &Value,
    ) -> (r: Value)
        ensures
            r@ == executor_highlight_model(
                self@,
                txn@,
                thg@,
                text_model(prefix@),
                text_model(suffix@),
                match_ref@,
                doc@,
            ),
    {
        match match_ref_of(match_ref) {
            Some(mr) => {
                if self.serves(mr) {
                    let fs = collect_matching_spans(txn, mr, thg);
                    let pre = text_of(prefix);
                    let suf = text_of(suffix);
                    highlight_doc(doc, &fs, &pre, &suf)
                } else {
                    Value::Empty
                }
            },
            None => Value::Empty,
        }
    }

    /// Resolves all spans of the match reference on the record and reports
    /// them per field, in ascending start order; fields without matches are
    /// omitted. A match reference the index does not serve yields an absent
    /// value.
    pub fn offsets(&self, txn: &Transaction, thg: &Thing, match_ref: &Value) -> (r: Value)
        ensures
            r@ == executor_offsets_model(self@, txn@, thg@, match_ref@),
    {
        match match_ref_of(match_ref) {
            Some(mr) => {
                if self.serves(mr) {
                    let fs = collect_matching_spans(txn, mr, thg);
                    offsets_doc(&fs)
                } else {
                    Value::Empty
                }
            },
            None => Value::Empty,
        }
    }
}

/// What `highlight` yields on the executor's inputs.
pub open spec fn executor_highlight_model(
    exe: QueryExecutorModel,
    txn: Seq<IndexEntryModel>,
    thg: ThingModel,
    pre: Seq<u8>,
    suf: Seq<u8>,
    mr_v: ValueModel,
    doc: ValueModel,
) -> ValueModel {
    match match_ref_model(mr_v) {
        Some(mr) => if exe.match_refs.contains(mr) {
            highlight_model(doc, collect_spans(txn, mr, thg), pre, suf)
        } else {
            ValueModel::Empty
        },
        None => ValueModel::Empty,
    }
}

/// Highlighting a document against spans that hold no match leaves it
/// unchanged, structurally and by value.
pub proof fn lemma_highlight_no_matches(
    doc: ValueModel,
    fs: Seq<(Seq<u8>, Seq<Span>)>,
    pre: Seq<u8>,
    suf: Seq<u8>,
)
    requires
        forall|k: Seq<u8>|
            (#[trigger] spans_lookup(fs, k)) matches Some(sp) ==> sp.len() == 0,
    ensures
        highlight_model(doc, fs, pre, suf) == doc,
{
    match doc {
        ValueModel::Object(fields) => {
            assert forall|i: int| 0 <= i < fields.len() implies highlight_field_model(
                (#[trigger] fields[i]).0,
                fields[i].1,
                fs,
                pre,
                suf,
            ) == fields[i].1 by {
                match spans_lookup(fs, fields[i].0) {
                    Some(sp) => {
                        assert(sp.len() == 0);
                        lemma_wrap_value_inert(fields[i].1, sp, pre, suf);
                    },
                    None => {},
                }
            }
            assert(Seq::new(
                fields.len(),
                |i: int| (fields[i].0, highlight_field_model(fields[i].0, fields[i].1, fs, pre, suf)),
            ) =~= fields);
        },
        _ => {},
    }
}

/// When no snapshot entry belongs to the match reference on the record,
/// nothing is collected.
pub proof fn lemma_collect_spans_empty(entries: Seq<IndexEntryModel>, mr: u64, thg: ThingModel)
    requires
        forall|i: int| 0 <= i < entries.len() ==> !entry_matches(#[trigger] entries[i], mr, thg),
    ensures
        collect_spans(entries, mr, thg) == Seq::<(Seq<u8>, Seq<Span>)>::empty(),
    decreases entries.len(),
{
    if entries.len() > 0 {
        assert forall|i: int| 0 <= i < entries.skip(1).len() implies !entry_matches(
            #[trigger] entries.skip(1)[i],
            mr,
            thg,
        ) by {
            assert(entries.skip(1)[i] == entries[i + 1]);
        }
        lemma_collect_spans_empty(entries.skip(1), mr, thg);
    }
}

/// Highlighting against an empty collection leaves any document unchanged.
pub proof fn lemma_highlight_nothing_collected(doc: ValueModel, pre: Seq<u8>, suf: Seq<u8>)
    ensures
        highlight_model(doc, Seq::<(Seq<u8>, Seq<Span>)>::empty(), pre, suf) == doc,
{
    lemma_highlight_no_matches(doc, Seq::<(Seq<u8>, Seq<Span>)>::empty(), pre, suf);
}

/// Highlighting with zero matches returns the input document unchanged,
/// structurally and by value: when no snapshot entry belongs to the match
/// reference on the record, the executor hands the document back as it is.
pub proof fn lemma_highlight_zero_matches(
    exe: QueryExecutorModel,
    txn: Seq<IndexEntryModel>,
    thg: ThingModel,
    pre: Seq<u8>,
    suf: Seq<u8>,
    mr_v: ValueModel,
    doc: ValueModel,
)
    requires
        match_ref_model(mr_v) matches Some(mr) && exe.match_refs.contains(mr) && (forall|i: int|
            0 <= i < txn.len() ==> !entry_matches(#[trigger] txn[i], mr, thg)),
    ensures
        executor_highlight_model(exe, txn, thg, pre, suf, mr_v, doc) == doc,
{
    let mr = match_ref_model(mr_v)->0;
    lemma_collect_spans_empty(txn, mr, thg);
    lemma_highlight_nothing_collected(doc, pre, suf);
}

/// Whenever highlighting transforms a field, the spans it wrapped are
/// well-formed, so no two of them overlap: of two wrapped spans, the earlier
/// ends before the later starts.
pub proof fn lemma_highlight_wraps_nonoverlapping(
    k: Seq<u8>,
    v: ValueModel,
    fs: Seq<(Seq<u8>, Seq<Span>)>,
    pre: Seq<u8>,
    suf: Seq<u8>,
)
    requires
        highlight_field_model(k, v, fs, pre, suf) != v,
    ensures
        spans_lookup(fs, k) matches Some(sp) && spans_wf(sp) && forall|i: int, j: int|
            0 <= i < j < sp.len() ==> (#[trigger] sp[i]).end <= (#[trigger] sp[j]).start,
{
    match spans_lookup(fs, k) {
        Some(sp) => {
            if !spans_wf(sp) {
                lemma_wrap_value_inert(v, sp, pre, suf);
            } else {
                crate::span::lemma_spans_nonoverlapping(sp);
            }
        },
        None => {},
    }
}

/// A well-formed pair of positions in an offsets report: a two-element
/// array of numbers with start strictly below end.
pub open spec fn span_pair_ok(v: ValueModel) -> bool {
    &&& v matches ValueModel::Array(a) && a.len() == 2 && a[0] is Number && a[1] is Number
        && a[0]->Number_0 < a[1]->Number_0
}

/// The start position a pair in an offsets report carries.
pub open spec fn pair_start(v: ValueModel) -> int {
    v->Array_0[0]->Number_0
}

/// A field's part of an offsets report is ordered: every entry is a
/// start-end pair with start below end, and entries ascend strictly by
/// start.
pub open spec fn field_offsets_ordered(v: ValueModel) -> bool {
    &&& v matches ValueModel::Array(a)
    &&& forall|i: int| 0 <= i < a.len() ==> span_pair_ok(#[trigger] a[i])
    &&& forall|i: int, j: int|
        0 <= i < j < a.len() ==> pair_start(#[trigger] a[i]) < pair_start(#[trigger] a[j])
}

/// Well-formed spans render as an ordered offsets field.
proof fn lemma_spans_value_ordered(sp: Seq<Span>)
    requires
        spans_wf(sp),
    ensures
        field_offsets_ordered(ValueModel::Array(spans_value_model(sp))),
{
    crate::span::lemma_spans_ascending(sp);
    let a = spans_value_model(sp);
    assert forall|i: int| 0 <= i < a.len() implies span_pair_ok(#[trigger] a[i]) by {
        assert(a[i] == span_pair_model(sp[i]));
    }
    assert forall|i: int, j: int| 0 <= i < j < a.len() implies pair_start(#[trigger] a[i])
        < pair_start(#[trigger] a[j]) by {
        assert(sp[i].start < sp[j].start);
    }
}

/// Every field of an offsets report built from well-formed spans is ordered.
pub proof fn lemma_offsets_model_ordered(fs: Seq<(Seq<u8>, Seq<Span>)>)
    requires
        forall|i: int| 0 <= i < fs.len() ==> spans_wf((#[trigger] fs[i]).1),
    ensures
        forall|i: int|
            0 <= i < offsets_model(fs).len() ==> field_offsets_ordered(
                (#[trigger] offsets_model(fs)[i]).1,
            ),
    decreases fs.len(),
{
    if fs.len() > 0 {
        assert forall|i: int| 0 <= i < fs.skip(1).len() implies spans_wf(
            (#[trigger] fs.skip(1)[i]).1,
        ) by {
            assert(fs.skip(1)[i] == fs[i + 1]);
        }
        lemma_offsets_model_ordered(fs.skip(1));
        if fs[0].1.len() > 0 {
            lemma_spans_value_ordered(fs[0].1);
            assert forall|i: int| 0 <= i < offsets_model(fs).len() implies field_offsets_ordered(
                (#[trigger] offsets_model(fs)[i]).1,
            ) by {
                if i > 0 {
                    assert(offsets_model(fs)[i] == offsets_model(fs.skip(1))[i - 1]);
                }
            }
        }
    }
}

/// Every span collected from a well-formed snapshot is well-formed.
pub proof fn lemma_collect_spans_wf(entries: Seq<IndexEntryModel>, mr: u64, thg: ThingModel)
    requires
        forall|i: int| 0 <= i < entries.len() ==> spans_wf((#[trigger] entries[i]).spans),
    ensures
        forall|i: int|
            0 <= i < collect_spans(entries, mr, thg).len() ==> spans_wf(
                (#[trigger] collect_spans(entries, mr, thg)[i]).1,
            ),
    decreases entries.len(),
{
    if entries.len() > 0 {
        assert forall|i: int| 0 <= i < entries.skip(1).len() implies spans_wf(
            (#[trigger] entries.skip(1)[i]).spans,
        ) by {
            assert(entries.skip(1)[i] == entries[i + 1]);
        }
        lemma_collect_spans_wf(entries.skip(1), mr, thg);
        let c = collect_spans(entries, mr, thg);
        let tail = collect_spans(entries.skip(1), mr, thg);
        assert forall|i: int| 0 <= i < c.len() implies spans_wf((#[trigger] c[i]).1) by {
            if entry_matches(entries[0], mr, thg) {
                if i == 0 {
                    assert(c[0] == (entries[0].field, entries[0].spans));
                    assert(spans_wf(entries[0].spans));
                } else {
                    assert(c[i] == tail[i - 1]);
                    assert(spans_wf(tail[i - 1].1));
                }
            } else {
                assert(c[i] == tail[i]);
                assert(spans_wf(tail[i].1));
            }
        }
    }
}

/// What `offsets` yields on the executor's inputs.
pub open spec fn executor_offsets_model(
    exe: QueryExecutorModel,
    txn: Seq<IndexEntryModel>,
    thg: ThingModel,
    mr_v: ValueModel,
) -> ValueModel {
    match match_ref_model(mr_v) {
        Some(mr) => if exe.match_refs.contains(mr) {
            ValueModel::Object(offsets_model(collect_spans(txn, mr, thg)))
        } else {
            ValueModel::Empty
        },
        None => ValueModel::Empty,
    }
}

} // verus!
