//! The closed dynamic value type that statements produce and consume, and its
//! mathematical model.

use vstd::prelude::*;
use crate::Duration;

verus! {

broadcast use vstd::std_specs::vec::group_vec_axioms;

/// A record identity: a table name paired with a record key, as seen in the
/// model. Both are UTF-8 bytes.
pub ghost struct ThingModel {
    pub tb: Seq<u8>,
    pub key: Seq<u8>,
}

/// The model of a dynamic value: what a [`Value`] denotes.
pub ghost enum ValueModel {
    Empty,
    Bool(bool),
    Number(int),
    Strand(Seq<u8>),
    Array(Seq<ValueModel>),
    Object(Seq<(Seq<u8>, ValueModel)>),
    Thing(ThingModel),
    Duration(Duration),
}

/// A record identity: a table name paired with a record key, unique within
/// one transaction snapshot.
#[derive(Debug, PartialEq, Eq)]
pub struct Thing {
    pub tb: Vec<u8>,
    pub key: Vec<u8>,
}

impl View for Thing {
    type V = ThingModel;

    open spec fn view(&self) -> ThingModel {
        ThingModel { tb: self.tb@, key: self.key@ }
    }
}

/// A dynamic value: the closed sum of every shape a statement can produce.
/// Text is UTF-8 bytes; objects keep their fields in insertion order.
#[derive(Debug, PartialEq, Eq)]
pub enum Value {
    Empty,
    Bool(bool),
    Number(i64),
    Strand(Vec<u8>),
    Array(Vec<Value>),
    Object(Vec<(Vec<u8>, Value)>),
    Thing(Thing),
    Duration(Duration),
}

/// The model a value denotes.
pub open spec fn value_model(v: Value) -> ValueModel
    decreases v,
{
    match v {
        Value::Empty => ValueModel::Empty,
        Value::Bool(b) => ValueModel::Bool(b),
        Value::Number(n) => ValueModel::Number(n as int),
        Value::Strand(s) => ValueModel::Strand(s@),
        Value::Array(items) => ValueModel::Array(items_model(items@)),
        Value::Object(fields) => ValueModel::Object(fields_model(fields@)),
        Value::Thing(t) => ValueModel::Thing(t@),
        Value::Duration(d) => ValueModel::Duration(d),
    }
}

/// The models of a sequence of values, in order.
pub open spec fn items_model(items: Seq<Value>) -> Seq<ValueModel>
    decreases items,
{
    if items.len() == 0 {
        Seq::empty()
    } else {
        items_model(items.drop_last()).push(value_model(items.last()))
    }
}

/// The models of an object's fields, in order.
pub open spec fn fields_model(fields: Seq<(Vec<u8>, Value)>) -> Seq<(Seq<u8>, ValueModel)>
    decreases fields,
{
    if fields.len() == 0 {
        Seq::empty()
    } else {
        fields_model(fields.drop_last()).push(
            (fields.last().0@, value_model(fields.last().1)),
        )
    }
}

/// `items_model` maps the sequence pointwise.
pub proof fn lemma_items_model(items: Seq<Value>)
    ensures
        items_model(items).len() == items.len(),
        forall|i: int|
            0 <= i < items.len() ==> #[trigger] items_model(items)[i] == value_model(items[i]),
    decreases items.len(),
{
    if items.len() > 0 {
        lemma_items_model(items.drop_last());
    }
}

/// Pushing a field extends the fields' model by the field's model.
pub proof fn lemma_fields_model_push(fields: Seq<(Vec<u8>, Value)>, f: (Vec<u8>, Value))
    ensures
        fields_model(fields.push(f)) == fields_model(fields).push((f.0@, value_model(f.1))),
{
    assert(fields.push(f).drop_last() =~= fields);
    assert(fields.push(f).last() == f);
}

/// `fields_model` maps the fields pointwise.
pub proof fn lemma_fields_model(fields: Seq<(Vec<u8>, Value)>)
    ensures
        fields_model(fields).len() == fields.len(),
        forall|i: int|
            0 <= i < fields.len() ==> #[trigger] fields_model(fields)[i] == (
                fields[i].0@,
                value_model(fields[i].1),
            ),
    decreases fields.len(),
{
    if fields.len() > 0 {
        lemma_fields_model(fields.drop_last());
    }
}

impl View for Value {
    type V = ValueModel;

    #[verifier::inline]
    open spec fn view(&self) -> ValueModel {
        value_model(*self)
    }
}

/// Copies a byte string.
pub fn bytes_copy(b: &Vec<u8>) -> (r: Vec<u8>)
    ensures
        r@ == b@,
{
    let mut out: Vec<u8> = Vec::new();
    let mut i: usize = 0;
    while i < b.len()
        invariant
            i <= b.len(),
            out@ == b@.subrange(0, i as int),
        decreases b.len() - i,
    {
        out.push(b[i]);
        i = i + 1;
        proof {
            assert(out@ =~= b@.subrange(0, i as int));
        }
    }
    proof {
        assert(out@ =~= b@);
    }
    out
}

/// Compares two byte strings for equality.
pub fn bytes_eq(a: &Vec<u8>, b: &Vec<u8>) -> (r: bool)
    ensures
        r == (a@ == b@),
{
    if a.len() != b.len() {
        proof {
            assert(a@ != b@);
        }
        return false;
    }
    let mut i: usize = 0;
    while i < a.len()
        invariant
            i <= a.len(),
            a@.len() == b@.len(),
            forall|j: int| 0 <= j < i ==> a@[j] == b@[j],
        decreases a.len() - i,
    {
        if a[i] != b[i] {
            return false;
        }
        i = i + 1;
    }
    proof {
        assert(a@ =~= b@);
    }
    true
}

impl Thing {
    /// Copies a record identity.
    pub fn deep_copy(&self) -> (r: Thing)
        ensures
            r@ == self@,
    {
        Thing { tb: bytes_copy(&self.tb), key: bytes_copy(&self.key) }
    }
}

impl Value {
    /// Copies a value; the copy denotes the same model.
    pub fn deep_copy(&self) -> (r: Value)
        ensures
            r@ == self@,
        decreases self,
    {
        match self {
            Value::Empty => Value::Empty,
            Value::Bool(b) => Value::Bool(*b),
            Value::Number(n) => Value::Number(*n),
            Value::Strand(s) => Value::Strand(bytes_copy(s)),
            Value::Array(items) => Value::Array(copy_items(items)),
            Value::Object(fields) => Value::Object(copy_fields(fields)),
            Value::Thing(t) => Value::Thing(t.deep_copy()),
            Value::Duration(d) => Value::Duration(*d),
        }
    }
}

/// Copies a sequence of values pointwise.
fn copy_items(items: &Vec<Value>) -> (r: Vec<Value>)
    ensures
        items_model(r@) == items_model(items@),
    decreases items,
{
    let mut out: Vec<Value> = Vec::new();
    let mut i: usize = 0;
    while i < items.len()
        invariant
            i <= items.len(),
            out@.len() == i,
            forall|j: int| 0 <= j < i ==> #[trigger] out@[j]@ == items@[j]@,
        decreases items.len() - i,
    {
        proof {
            assert(decreases_to!(*items => items@[i as int]));
        }
        let copied = items[i].deep_copy();
        out.push(copied);
        i = i + 1;
    }
    proof {
        lemma_items_model(out@);
        lemma_items_model(items@);
        assert(items_model(out@) =~= items_model(items@));
    }
    out
}

/// Copies an object's fields pointwise.
fn copy_fields(fields: &Vec<(Vec<u8>, Value)>) -> (r: Vec<(Vec<u8>, Value)>)
    ensures
        fields_model(r@) == fields_model(fields@),
    decreases fields,
{
    let mut out: Vec<(Vec<u8>, Value)> = Vec::new();
    let mut i: usize = 0;
    while i < fields.len()
        invariant
            i <= fields.len(),
            out@.len() == i,
            forall|j: int|
                0 <= j < i ==> #[trigger] out@[j].0@ == fields@[j].0@ && out@[j].1@
                    == fields@[j].1@,
        decreases fields.len() - i,
    {
        let k = bytes_copy(&fields[i].0);
        proof {
            assert(decreases_to!(*fields => fields@[i as int]));
        }
        let v = fields[i].1.deep_copy();
        out.push((k, v));
        i = i + 1;
    }
    proof {
        lemma_fields_model(out@);
        lemma_fields_model(fields@);
        assert(fields_model(out@) =~= fields_model(fields@));
    }
    out
}

} // verus!
