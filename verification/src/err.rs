//! The error type that statements and the transaction layer surface.

use vstd::prelude::*;

verus! {

/// What went wrong, as a closed enumeration.
///
/// The only hard failures this crate itself originates concern the
/// transaction handle; any other statement failure reaches an envelope from
/// outside and is carried as [`ErrorKind::Query`].
#[derive(Clone, Copy, PartialEq, Eq, Structural, Debug)]
pub enum ErrorKind {
    /// The transaction was already finalized: committed or cancelled.
    TxFinished,
    /// The current isolation mode forbids duplicating the handle.
    TxCloneForbidden,
    /// A statement failed for a reason outside this crate.
    Query,
}

/// The model of an error: its kind and its descriptive detail.
pub ghost struct ErrorModel {
    pub kind: ErrorKind,
    pub detail: Seq<u8>,
}

/// An error: an enumerated kind plus a descriptive detail in UTF-8 bytes.
#[derive(Debug, PartialEq, Eq)]
pub struct Error {
    pub kind: ErrorKind,
    pub detail: Vec<u8>,
}

impl View for Error {
    type V = ErrorModel;

    open spec fn view(&self) -> ErrorModel {
        ErrorModel { kind: self.kind, detail: self.detail@ }
    }
}

/// The detail text of the error raised when a finalized transaction's handle
/// is cloned.
pub open spec fn tx_finished_detail() -> Seq<u8> {
    seq![
        116u8, 114u8, 97u8, 110u8, 115u8, 97u8, 99u8, 116u8, 105u8, 111u8, 110u8, 32u8, 102u8,
        105u8, 110u8, 105u8, 115u8, 104u8, 101u8, 100u8,
    ]
}

/// The detail text of the error raised when the isolation mode forbids
/// cloning the transaction handle.
pub open spec fn tx_clone_forbidden_detail() -> Seq<u8> {
    seq![
        116u8, 114u8, 97u8, 110u8, 115u8, 97u8, 99u8, 116u8, 105u8, 111u8, 110u8, 32u8, 99u8,
        108u8, 111u8, 110u8, 101u8, 32u8, 110u8, 111u8, 116u8, 32u8, 97u8, 108u8, 108u8, 111u8,
        119u8, 101u8, 100u8,
    ]
}

impl Error {
    /// The error for a transaction that was already committed or cancelled.
    pub fn tx_finished() -> (r: Error)
        ensures
            r@ == (ErrorModel { kind: ErrorKind::TxFinished, detail: tx_finished_detail() }),
    {
        let e = Error {
            kind: ErrorKind::TxFinished,
            detail: vec![
                116u8, 114u8, 97u8, 110u8, 115u8, 97u8, 99u8, 116u8, 105u8, 111u8, 110u8, 32u8,
                102u8, 105u8, 110u8, 105u8, 115u8, 104u8, 101u8, 100u8,
            ],
        };
        proof {
            assert(e.detail@ =~= tx_finished_detail());
        }
        e
    }

    /// The error for an isolation mode that forbids handle duplication.
    pub fn tx_clone_forbidden() -> (r: Error)
        ensures
            r@ == (ErrorModel {
                kind: ErrorKind::TxCloneForbidden,
                detail: tx_clone_forbidden_detail(),
            }),
    {
        let e = Error {
            kind: ErrorKind::TxCloneForbidden,
            detail: vec![
                116u8, 114u8, 97u8, 110u8, 115u8, 97u8, 99u8, 116u8, 105u8, 111u8, 110u8, 32u8,
                99u8, 108u8, 111u8, 110u8, 101u8, 32u8, 110u8, 111u8, 116u8, 32u8, 97u8, 108u8,
                108u8, 111u8, 119u8, 101u8, 100u8,
            ],
        };
        proof {
            assert(e.detail@ =~= tx_clone_forbidden_detail());
        }
        e
    }
}

} // verus!
