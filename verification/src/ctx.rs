//! The execution context: the document under evaluation, the current record
//! identity, the registered search executors, and the transaction handle.

use vstd::prelude::*;
use crate::err::Error;
use crate::err::ErrorKind;
use crate::err::tx_finished_detail;
use crate::err::tx_clone_forbidden_detail;
use crate::exe::QueryExecutor;
use crate::exe::QueryExecutorModel;
use crate::exe::executors_model;
use crate::exe::lookup_executor;
use crate::span::Span;
use crate::span::spans_wf;
use crate::value::Thing;
use crate::value::ThingModel;
use crate::value::Value;
use crate::value::ValueModel;
use crate::value::bytes_copy;
use crate::value::bytes_eq;

verus! {

broadcast use vstd::std_specs::vec::group_vec_axioms;

/// The model of one full-text index entry.
pub ghost struct IndexEntryModel {
    pub match_ref: u64,
    pub tb: Seq<u8>,
    pub key: Seq<u8>,
    pub field: Seq<u8>,
    pub spans: Seq<Span>,
}

/// One full-text index entry as read through a transaction snapshot: the
/// spans of one match reference in one field of one record.
#[derive(Debug, PartialEq, Eq)]
pub struct IndexEntry {
    pub match_ref: u64,
    pub tb: Vec<u8>,
    pub key: Vec<u8>,
    pub field: Vec<u8>,
    pub spans: Vec<Span>,
}

impl View for IndexEntry {
    type V = IndexEntryModel;

    open spec fn view(&self) -> IndexEntryModel {
        IndexEntryModel {
            match_ref: self.match_ref,
            tb: self.tb@,
            key: self.key@,
            field: self.field@,
            spans: self.spans@,
        }
    }
}

/// The entries of a snapshot, in order.
pub open spec fn entries_model(entries: Seq<IndexEntry>) -> Seq<IndexEntryModel> {
    Seq::new(entries.len(), |i: int| entries[i]@)
}

/// A transaction handle: a read snapshot of the full-text index entries
/// visible to one statement. Every clone shares the same snapshot.
#[derive(Debug, PartialEq, Eq)]
pub struct Transaction {
    pub entries: Vec<IndexEntry>,
}

impl View for Transaction {
    type V = Seq<IndexEntryModel>;

    open spec fn view(&self) -> Seq<IndexEntryModel> {
        entries_model(self.entries@)
    }
}

/// What the index guarantees of a snapshot: each entry's spans are
/// well-formed, and no two entries describe the same field of the same
/// record for the same match reference.
pub open spec fn txn_wf(entries: Seq<IndexEntryModel>) -> bool {
    &&& forall|i: int| 0 <= i < entries.len() ==> spans_wf((#[trigger] entries[i]).spans)
    &&& forall|i: int, j: int|
        0 <= i < j < entries.len() ==> !((#[trigger] entries[i]).match_ref == (
        #[trigger] entries[j]).match_ref && entries[i].tb == entries[j].tb && entries[i].key
            == entries[j].key && entries[i].field == entries[j].field)
}

/// Copies a span list.
pub fn spans_copy(spans: &Vec<Span>) -> (r: Vec<Span>)
    ensures
        r@ == spans@,
{
    let mut out: Vec<Span> = Vec::new();
    let mut i: usize = 0;
    while i < spans.len()
        invariant
            i <= spans@.len(),
            out@ == spans@.subrange(0, i as int),
        decreases spans@.len() - i,
    {
        out.push(spans[i]);
        i = i + 1;
        proof {
            assert(out@ =~= spans@.subrange(0, i as int));
        }
    }
    proof {
        assert(out@ =~= spans@);
    }
    out
}

impl Transaction {
    /// Clones the handle: the clone shares the same read snapshot.
    pub fn deep_copy(&self) -> (r: Transaction)
        ensures
            r@ == self@,
    {
        let mut out: Vec<IndexEntry> = Vec::new();
        let mut i: usize = 0;
        while i < self.entries.len()
            invariant
                i <= self.entries@.len(),
                out@.len() == i,
                forall|j: int| 0 <= j < i ==> (#[trigger] out@[j])@ == self.entries@[j]@,
            decreases self.entries@.len() - i,
        {
            let e = &self.entries[i];
            out.push(
                IndexEntry {
                    match_ref: e.match_ref,
                    tb: bytes_copy(&e.tb),
                    key: bytes_copy(&e.key),
                    field: bytes_copy(&e.field),
                    spans: spans_copy(&e.spans),
                },
            );
            i = i + 1;
        }
        let r = Transaction { entries: out };
        proof {
            assert(entries_model(out@) =~= entries_model(self.entries@));
        }
        r
    }
}

/// Whether the statement's transaction is still open.
#[derive(Clone, Copy, PartialEq, Eq, Structural, Debug)]
pub enum TxState {
    /// The transaction is running; its handle may be read through.
    Active,
    /// The transaction was committed.
    Committed,
    /// The transaction was cancelled; this is also how a cancellation of the
    /// surrounding statement is observed at the read boundary.
    Cancelled,
}

/// The model of an execution context.
pub ghost struct ContextModel {
    pub doc: Option<ValueModel>,
    pub thing: Option<ThingModel>,
    pub executors: Seq<QueryExecutorModel>,
    pub txn: Seq<IndexEntryModel>,
    pub state: TxState,
    pub clone_allowed: bool,
}

/// The execution context of one statement: what the search functions consume.
/// It is built once per statement and stays immutable for the statement's
/// full evaluation.
#[derive(Debug)]
pub struct Context {
    /// The value under evaluation; absent outside a per-document scope.
    pub doc: Option<Value>,
    /// The current record identity; absent outside a document scope.
    pub thing: Option<Thing>,
    /// The search executors registered for this statement, one per table.
    pub executors: Vec<QueryExecutor>,
    /// The active transaction's snapshot.
    pub txn: Transaction,
    /// Whether the transaction is still open.
    pub state: TxState,
    /// Whether the isolation mode allows duplicating the handle.
    pub clone_allowed: bool,
}

impl View for Context {
    type V = ContextModel;

    open spec fn view(&self) -> ContextModel {
        ContextModel {
            doc: match self.doc {
                Some(d) => Some(d@),
                None => None,
            },
            thing: match self.thing {
                Some(t) => Some(t@),
                None => None,
            },
            executors: executors_model(self.executors@),
            txn: self.txn@,
            state: self.state,
            clone_allowed: self.clone_allowed,
        }
    }
}

impl Context {
    /// The value being evaluated, absent when no per-document scope is
    /// active. Absence is not an error.
    pub fn doc(&self) -> (r: Option<&Value>)
        ensures
            match self.doc {
                Some(d) => r matches Some(v) && *v == d,
                None => r is None,
            },
    {
        match &self.doc {
            Some(v) => Some(v),
            None => None,
        }
    }

    /// The current record identity, absent outside a document scope.
    pub fn thing(&self) -> (r: Option<&Thing>)
        ensures
            match self.thing {
                Some(t) => r matches Some(v) && *v == t,
                None => r is None,
            },
    {
        match &self.thing {
            Some(t) => Some(t),
            None => None,
        }
    }

    /// The search executor registered for `tb`, absent when the table
    /// carries no full-text index bound to the current statement.
    pub fn get_query_executor(&self, tb: &Vec<u8>) -> (r: Option<&QueryExecutor>)
        ensures
            match r {
                Some(e) => lookup_executor(self@.executors, tb@) == Some(e@),
                None => lookup_executor(self@.executors, tb@) is None,
            },
    {
        let n = self.executors.len();
        let mut i: usize = 0;
        proof {
            assert(self@.executors.skip(0) =~= self@.executors);
        }
        while i < n
            invariant
                i <= n,
                n == self.executors@.len(),
                self@.executors.len() == n,
                forall|j: int|
                    0 <= j < n ==> (#[trigger] self@.executors[j]) == self.executors@[j]@,
                lookup_executor(self@.executors, tb@) == lookup_executor(
                    self@.executors.skip(i as int),
                    tb@,
                ),
            decreases n - i,
        {
            let e = &self.executors[i];
            if bytes_eq(&e.tb, tb) {
                proof {
                    assert(self@.executors.skip(i as int)[0] == self@.executors[i as int]);
                }
                return Some(e);
            }
            proof {
                assert(self@.executors.skip(i as int)[0] == self@.executors[i as int]);
                assert(self@.executors.skip(i as int).skip(1) =~= self@.executors.skip(i + 1));
            }
            i = i + 1;
        }
        proof {
            assert(self@.executors.skip(i as int) =~= Seq::<QueryExecutorModel>::empty());
        }
        None
    }

    /// Clones the active transaction handle. The clone shares the same read
    /// snapshot. Fails when the transaction is already finalized (committed
    /// or cancelled) or when the isolation mode forbids duplication; a
    /// cancellation of the surrounding statement is observed here and
    /// propagates as that failure.
    pub fn try_clone_transaction(&self) -> (r: Result<Transaction, Error>)
        ensures
            self.state == TxState::Active && self.clone_allowed ==> (r matches Ok(t) && t@
                == self@.txn),
            self.state != TxState::Active ==> (r matches Err(e) && e@.kind == ErrorKind::TxFinished
                && e@.detail == tx_finished_detail()),
            self.state == TxState::Active && !self.clone_allowed ==> (r matches Err(e) && e@.kind
                == ErrorKind::TxCloneForbidden && e@.detail == tx_clone_forbidden_detail()),
    {
        match self.state {
            TxState::Active => {
                if self.clone_allowed {
                    Ok(self.txn.deep_copy())
                } else {
                    Err(Error::tx_clone_forbidden())
                }
            },
            TxState::Committed => Err(Error::tx_finished()),
            TxState::Cancelled => Err(Error::tx_finished()),
        }
    }
}

} // verus!
