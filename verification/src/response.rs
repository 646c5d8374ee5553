//! The per-statement result envelope and its wire shape.

use vstd::prelude::*;
use crate::Duration;
use crate::spec_duration_text;
use crate::err::Error;
use crate::err::ErrorModel;
use crate::value::Value;
use crate::value::ValueModel;
use crate::value::fields_model;
use crate::value::lemma_fields_model;

verus! {

/// How a statement affects live-query tracking.
#[derive(Clone, Copy, PartialEq, Eq, Structural, Debug)]
pub enum QueryType {
    /// Any kind of query.
    Other,
    /// The response's live query id must be tracked.
    Live,
    /// The live query must be removed from tracking.
    Kill,
}

/// The return value when running a query set on the database: one
/// statement's outcome, its elapsed time, and its classification.
#[derive(Debug)]
pub struct Response {
    pub time: Duration,
    pub result: Result<Value, Error>,
    pub query_type: QueryType,
}

/// The model of an envelope's outcome.
pub open spec fn outcome_model(r: Result<Value, Error>) -> Result<ValueModel, ErrorModel> {
    match r {
        Ok(v) => Ok(v@),
        Err(e) => Err(e@),
    }
}

/// The wire shape of one statement slot: exactly three named fields, chosen
/// by the outcome. Success carries `time`, `status` = `OK` and `result`;
/// failure carries `time`, `status` = `ERR` and `detail`.
pub open spec fn wire_model(
    time_text: Seq<u8>,
    outcome: Result<ValueModel, ErrorModel>,
) -> ValueModel {
    match outcome {
        Ok(v) => ValueModel::Object(
            seq![
                (seq![116u8, 105u8, 109u8, 101u8], ValueModel::Strand(time_text)),
                (
                    seq![115u8, 116u8, 97u8, 116u8, 117u8, 115u8],
                    ValueModel::Strand(seq![79u8, 75u8]),
                ),
                (seq![114u8, 101u8, 115u8, 117u8, 108u8, 116u8], v),
            ],
        ),
        Err(e) => ValueModel::Object(
            seq![
                (seq![116u8, 105u8, 109u8, 101u8], ValueModel::Strand(time_text)),
                (
                    seq![115u8, 116u8, 97u8, 116u8, 117u8, 115u8],
                    ValueModel::Strand(seq![69u8, 82u8, 82u8]),
                ),
                (seq![100u8, 101u8, 116u8, 97u8, 105u8, 108u8], ValueModel::Strand(e.detail)),
            ],
        ),
    }
}

impl Response {
    /// Return the transaction duration as text.
    pub fn speed(&self) -> (r: Vec<u8>)
        ensures
            r@ == spec_duration_text(self.time),
    {
        self.time.text()
    }

    /// Retrieve the response as a normal result, discarding the duration and
    /// the classification.
    pub fn output(self) -> (r: Result<Value, Error>)
        ensures
            r == self.result,
    {
        self.result
    }

    /// Renders the envelope in its wire shape: exactly three named fields,
    /// chosen by the outcome.
    pub fn serialize(&self) -> (r: Value)
        ensures
            r@ == wire_model(spec_duration_text(self.time), outcome_model(self.result)),
    {
        let time_text = self.time.text();
        let mut fields: Vec<(Vec<u8>, Value)> = Vec::new();
        fields.push((vec![116u8, 105u8, 109u8, 101u8], Value::Strand(time_text)));
        match &self.result {
            Ok(v) => {
                fields.push(
                    (
                        vec![115u8, 116u8, 97u8, 116u8, 117u8, 115u8],
                        Value::Strand(vec![79u8, 75u8]),
                    ),
                );
                fields.push((vec![114u8, 101u8, 115u8, 117u8, 108u8, 116u8], v.deep_copy()));
            },
            Err(e) => {
                fields.push(
                    (
                        vec![115u8, 116u8, 97u8, 116u8, 117u8, 115u8],
                        Value::Strand(vec![69u8, 82u8, 82u8]),
                    ),
                );
                fields.push(
                    (
                        vec![100u8, 101u8, 116u8, 97u8, 105u8, 108u8],
                        Value::Strand(crate::value::bytes_copy(&e.detail)),
                    ),
                );
            },
        }
        let r = Value::Object(fields);
        proof {
            lemma_fields_model(fields@);
            assert(fields_model(fields@) =~= wire_model(
                spec_duration_text(self.time),
                outcome_model(self.result),
            )->Object_0);
        }
        r
    }
}

} // verus!
