//! Per-statement result envelopes and full-text match resolution for a
//! transactional document database's query layer.
//!
//! The crate has three parts: the result envelope ([`response`]), which wraps
//! one statement's outcome together with its elapsed time and a live-query
//! classification; the execution context ([`ctx`]), which carries the document
//! under evaluation, the current record identity, the per-table search
//! executors and the transaction handle; and the match-resolution algorithms
//! ([`exe`], [`search`]), which turn index spans into highlighted values or
//! positional offsets.
//!
//! Text is carried as UTF-8 bytes and all span coordinates are byte
//! positions.

use vstd::prelude::*;

pub mod ctx;
pub mod err;
pub mod exe;
pub mod response;
pub mod search;
pub mod span;
pub mod value;

verus! {

/// Elapsed time of one statement, at millisecond granularity.
#[derive(Clone, Copy, PartialEq, Eq, Structural, Debug)]
pub struct Duration {
    pub ms: u64,
}

/// The decimal digits of `n`, most significant first, as ASCII bytes.
pub open spec fn spec_decimal(n: nat) -> Seq<u8>
    decreases n,
{
    if n < 10 {
        seq![(48 + n) as u8]
    } else {
        spec_decimal(n / 10).push((48 + n % 10) as u8)
    }
}

/// The text of a duration: its milliseconds in decimal, then `ms`.
pub open spec fn spec_duration_text(d: Duration) -> Seq<u8> {
    spec_decimal(d.ms as nat) + seq![109u8, 115u8]
}

/// Renders `n` in decimal.
pub fn decimal(n: u64) -> (r: Vec<u8>)
    ensures
        r@ == spec_decimal(n as nat),
    decreases n,
{
    if n < 10 {
        let mut v: Vec<u8> = Vec::new();
        v.push(48 + n as u8);
        proof {
            assert(v@ =~= spec_decimal(n as nat));
        }
        v
    } else {
        let mut v = decimal(n / 10);
        v.push(48 + (n % 10) as u8);
        proof {
            assert(v@ =~= spec_decimal(n as nat));
        }
        v
    }
}

impl Duration {
    /// Renders the duration as text, e.g. `12ms`.
    pub fn text(&self) -> (r: Vec<u8>)
        ensures
            r@ == spec_duration_text(*self),
    {
        let mut v = decimal(self.ms);
        v.push(109);
        v.push(115);
        proof {
            assert(v@ =~= spec_duration_text(*self));
        }
        v
    }
}

} // verus!
