//! The statement-callable search functions: `highlight` and `offsets`.
//!
//! Both ask the execution context for the current document, the record
//! identity and the registered executor, clone the transaction handle, and
//! let the executor resolve the match reference. Every "nothing to do"
//! condition — absent scope, absent executor, absent match — yields an
//! absent value immediately; the only hard failure is an unusable
//! transaction handle.

use vstd::prelude::*;
use crate::ctx::Context;
use crate::ctx::ContextModel;
use crate::ctx::TxState;
use crate::err::Error;
use crate::err::ErrorKind;
use crate::err::ErrorModel;
use crate::err::tx_finished_detail;
use crate::err::tx_clone_forbidden_detail;
use crate::exe::executor_highlight_model;
use crate::exe::executor_offsets_model;
use crate::exe::lookup_executor;
use crate::exe::text_model;
use crate::response::outcome_model;
use crate::value::Value;
use crate::value::ValueModel;

verus! {

/// The error a failed handle clone surfaces, by the context's state.
pub open spec fn clone_failure_model(ctx: ContextModel) -> ErrorModel {
    if ctx.state != TxState::Active {
        ErrorModel { kind: ErrorKind::TxFinished, detail: tx_finished_detail() }
    } else {
        ErrorModel { kind: ErrorKind::TxCloneForbidden, detail: tx_clone_forbidden_detail() }
    }
}

/// What `highlight` returns on a context: an absent value when the document,
/// the record identity or the executor is absent; the clone failure when the
/// handle cannot be duplicated; otherwise the executor's highlighted value.
pub open spec fn spec_highlight(
    ctx: ContextModel,
    pre_v: ValueModel,
    suf_v: ValueModel,
    mr_v: ValueModel,
) -> Result<ValueModel, ErrorModel> {
    match (ctx.doc, ctx.thing) {
        (Some(doc), Some(thg)) => match lookup_executor(ctx.executors, thg.tb) {
            Some(exe) => if ctx.state == TxState::Active && ctx.clone_allowed {
                Ok(
                    executor_highlight_model(
                        exe,
                        ctx.txn,
                        thg,
                        text_model(pre_v),
                        text_model(suf_v),
                        mr_v,
                        doc,
                    ),
                )
            } else {
                Err(clone_failure_model(ctx))
            },
            None => Ok(ValueModel::Empty),
        },
        _ => Ok(ValueModel::Empty),
    }
}

/// What `offsets` returns on a context, with the same absence rules as
/// [`spec_highlight`].
pub open spec fn spec_offsets(ctx: ContextModel, mr_v: ValueModel) -> Result<
    ValueModel,
    ErrorModel,
> {
    match (ctx.doc, ctx.thing) {
        (Some(doc), Some(thg)) => match lookup_executor(ctx.executors, thg.tb) {
            Some(exe) => if ctx.state == TxState::Active && ctx.clone_allowed {
                Ok(executor_offsets_model(exe, ctx.txn, thg, mr_v))
            } else {
                Err(clone_failure_model(ctx))
            },
            None => Ok(ValueModel::Empty),
        },
        _ => Ok(ValueModel::Empty),
    }
}

/// When the current document or the current record identity is absent, both
/// search functions return an absent value, never a failure.
pub proof fn lemma_absent_scope(
    ctx: ContextModel,
    pre_v: ValueModel,
    suf_v: ValueModel,
    mr_v: ValueModel,
)
    requires
        ctx.doc is None || ctx.thing is None,
    ensures
        spec_highlight(ctx, pre_v, suf_v, mr_v) == Ok::<ValueModel, ErrorModel>(ValueModel::Empty),
        spec_offsets(ctx, mr_v) == Ok::<ValueModel, ErrorModel>(ValueModel::Empty),
{
}

/// When no search executor is registered for the current record's table,
/// both search functions return an absent value, never a failure.
pub proof fn lemma_absent_executor(
    ctx: ContextModel,
    pre_v: ValueModel,
    suf_v: ValueModel,
    mr_v: ValueModel,
)
    requires
        ctx.thing matches Some(thg) ==> lookup_executor(ctx.executors, thg.tb) is None,
    ensures
        spec_highlight(ctx, pre_v, suf_v, mr_v) == Ok::<ValueModel, ErrorModel>(ValueModel::Empty),
        spec_offsets(ctx, mr_v) == Ok::<ValueModel, ErrorModel>(ValueModel::Empty),
{
}

/// Every successful offsets report is either absent or an object whose
/// fields are each ordered: start-end pairs with start below end, ascending
/// strictly by start.
pub proof fn lemma_offsets_result_ordered(ctx: ContextModel, mr_v: ValueModel)
    requires
        crate::ctx::txn_wf(ctx.txn),
    ensures
        spec_offsets(ctx, mr_v) matches Ok(v) ==> v == ValueModel::Empty || (
        v matches ValueModel::Object(om) && forall|i: int|
            0 <= i < om.len() ==> crate::exe::field_offsets_ordered((#[trigger] om[i]).1)),
{
    if ctx.doc is Some && ctx.thing is Some {
        let thg = ctx.thing->0;
        match lookup_executor(ctx.executors, thg.tb) {
            Some(exe) => {
                match crate::exe::match_ref_model(mr_v) {
                    Some(mr) => {
                        crate::exe::lemma_collect_spans_wf(ctx.txn, mr, thg);
                        crate::exe::lemma_offsets_model_ordered(
                            crate::exe::collect_spans(ctx.txn, mr, thg),
                        );
                    },
                    None => {},
                }
            },
            None => {},
        }
    }
}

/// Highlights the document under evaluation: every region of its text
/// fields matched by `match_ref` is fenced by the marker strings. Absent
/// scope or executor yields an absent value, never a failure; only an
/// unusable transaction handle fails.
pub fn highlight(ctx: &Context, prefix: &Value, suffix: &Value, match_ref: &Value) -> (r: Result<
    Value,
    Error,
>)
    ensures
        outcome_model(r) == spec_highlight(ctx@, prefix@, suffix@, match_ref@),
{
    if let Some(doc) = ctx.doc() {
        if let Some(thg) = ctx.thing() {
            if let Some(exe) = ctx.get_query_executor(&thg.tb) {
                let txn = match ctx.try_clone_transaction() {
                    Ok(t) => t,
                    Err(e) => {
                        return Err(e);
                    },
                };
                return Ok(exe.highlight(&txn, thg, prefix, suffix, match_ref, doc));
            }
        }
    }
    Ok(Value::Empty)
}

/// Reports the positional offsets of every region matched by `match_ref`,
/// per field of the current record. Absent scope or executor yields an
/// absent value, never a failure; only an unusable transaction handle
/// fails.
pub fn offsets(ctx: &Context, match_ref: &Value) -> (r: Result<Value, Error>)
    ensures
        outcome_model(r) == spec_offsets(ctx@, match_ref@),
{
    if let Some(_doc) = ctx.doc() {
        if let Some(thg) = ctx.thing() {
            if let Some(exe) = ctx.get_query_executor(&thg.tb) {
                let txn = match ctx.try_clone_transaction() {
                    Ok(t) => t,
                    Err(e) => {
                        return Err(e);
                    },
                };
                return Ok(exe.offsets(&txn, thg, match_ref));
            }
        }
    }
    Ok(Value::Empty)
}

} // verus!
