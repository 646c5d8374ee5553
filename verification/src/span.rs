//! Match spans and the span-wrapping algorithm that highlighting builds on.
//!
//! A span marks a matched region of one field's text, in byte positions. The
//! index reports the spans of one field sorted ascending by start and
//! non-overlapping; the wrapping algorithm replaces every spanned region by
//! `prefix ++ region ++ suffix` and keeps all unmatched text.

use vstd::prelude::*;

verus! {

/// A matched region within one field's text: byte positions, with
/// `start <= .. < end`.
#[derive(Clone, Copy, PartialEq, Eq, Structural, Debug)]
pub struct Span {
    pub start: u32,
    pub end: u32,
}

/// The spans of one field as the index reports them: every span non-empty,
/// sorted ascending by start, and no two overlapping.
pub open spec fn spans_wf(spans: Seq<Span>) -> bool {
    &&& forall|i: int| 0 <= i < spans.len() ==> (#[trigger] spans[i]).start < spans[i].end
    &&& forall|i: int|
        0 <= i && i + 1 < spans.len() ==> (#[trigger] spans[i]).end <= spans[i + 1].start
}

/// Every span ends within a text of length `len`.
pub open spec fn spans_within(spans: Seq<Span>, len: int) -> bool {
    forall|i: int| 0 <= i < spans.len() ==> (#[trigger] spans[i]).end <= len
}

/// Of two well-formed spans, the earlier ends before the later starts.
pub proof fn lemma_span_pair(spans: Seq<Span>, i: int, j: int)
    requires
        spans_wf(spans),
        0 <= i < j < spans.len(),
    ensures
        spans[i].end <= spans[j].start,
    decreases j - i,
{
    if i + 1 < j {
        lemma_span_pair(spans, i, j - 1);
        assert(spans[j - 1].end <= spans[j].start);
    }
}

/// Well-formed spans are pairwise non-overlapping: of two spans, the earlier
/// ends before the later starts.
pub proof fn lemma_spans_nonoverlapping(spans: Seq<Span>)
    requires
        spans_wf(spans),
    ensures
        forall|i: int, j: int|
            0 <= i < j < spans.len() ==> (#[trigger] spans[i]).end <= (#[trigger] spans[j]).start,
{
    assert forall|i: int, j: int| 0 <= i < j < spans.len() implies (#[trigger] spans[i]).end <= (
    #[trigger] spans[j]).start by {
        lemma_span_pair(spans, i, j);
    }
}

/// Well-formed spans are strictly ascending by start.
pub proof fn lemma_spans_ascending(spans: Seq<Span>)
    requires
        spans_wf(spans),
    ensures
        forall|i: int, j: int|
            0 <= i < j < spans.len() ==> (#[trigger] spans[i]).start < (#[trigger] spans[j]).start,
{
    lemma_spans_nonoverlapping(spans);
}

/// Decides whether the spans may be applied to a text of length `len`:
/// well-formed and within bounds.
pub fn spans_applicable(spans: &Vec<Span>, len: usize) -> (r: bool)
    ensures
        r == (spans_wf(spans@) && spans_within(spans@, len as int)),
{
    let n = spans.len();
    let mut i: usize = 0;
    while i < n
        invariant
            i <= n,
            n == spans@.len(),
            forall|j: int| 0 <= j < i ==> (#[trigger] spans@[j]).start < spans@[j].end,
            forall|j: int| 0 <= j < i ==> (#[trigger] spans@[j]).end <= len as int,
            forall|j: int| 0 <= j < i && j + 1 < n ==> (#[trigger] spans@[j]).end <= spans@[j
                + 1].start,
        decreases n - i,
    {
        let sp = spans[i];
        if sp.start >= sp.end {
            return false;
        }
        if sp.end as usize > len {
            return false;
        }
        if i + 1 < n {
            if sp.end > spans[i + 1].start {
                return false;
            }
        }
        i = i + 1;
    }
    proof {
        assert forall|k: int| 0 <= k && k + 1 < spans@.len() implies (#[trigger] spans@[k]).end
            <= spans@[k + 1].start by {
            assert(0 <= k < i && k + 1 < n);
        }
        assert(spans_wf(spans@));
        assert(spans_within(spans@, len as int));
    }
    true
}

/// The wrapped tail of `text` from position `pos` on: each remaining span's
/// region is fenced by `pre` and `suf`, all other bytes stay.
pub open spec fn wrap_from(
    text: Seq<u8>,
    spans: Seq<Span>,
    pre: Seq<u8>,
    suf: Seq<u8>,
    pos: int,
) -> Seq<u8>
    decreases spans.len(),
{
    if spans.len() == 0 {
        text.subrange(pos, text.len() as int)
    } else {
        text.subrange(pos, spans[0].start as int) + pre + text.subrange(
            spans[0].start as int,
            spans[0].end as int,
        ) + suf + wrap_from(text, spans.skip(1), pre, suf, spans[0].end as int)
    }
}

/// The whole text with every span's region fenced by `pre` and `suf`.
pub open spec fn wrap(text: Seq<u8>, spans: Seq<Span>, pre: Seq<u8>, suf: Seq<u8>) -> Seq<u8> {
    wrap_from(text, spans, pre, suf, 0)
}

/// Wrapping without any span returns the text unchanged.
pub proof fn lemma_wrap_no_spans(text: Seq<u8>, pre: Seq<u8>, suf: Seq<u8>)
    ensures
        wrap(text, Seq::<Span>::empty(), pre, suf) == text,
{
    assert(wrap(text, Seq::<Span>::empty(), pre, suf) =~= text);
}

/// Appends `text[a..b]` to `out`.
fn push_range(out: &mut Vec<u8>, text: &Vec<u8>, a: usize, b: usize)
    requires
        a <= b <= text@.len(),
    ensures
        final(out)@ == old(out)@ + text@.subrange(a as int, b as int),
{
    let mut i: usize = a;
    while i < b
        invariant
            a <= i <= b <= text@.len(),
            out@ == old(out)@ + text@.subrange(a as int, i as int),
        decreases b - i,
    {
        out.push(text[i]);
        i = i + 1;
        proof {
            assert(old(out)@ + text@.subrange(a as int, i - 1) + seq![text@[i - 1]] =~= old(out)@
                + text@.subrange(a as int, i as int));
        }
    }
}

/// Appends all of `b` to `out`.
fn push_all(out: &mut Vec<u8>, b: &Vec<u8>)
    ensures
        final(out)@ == old(out)@ + b@,
{
    push_range(out, b, 0, b.len());
    proof {
        assert(b@.subrange(0, b@.len() as int) =~= b@);
    }
}

/// Fences every spanned region of `text` by `pre` and `suf`, keeping all
/// unmatched bytes: the executable form of [`wrap`].
pub fn wrap_spans(text: &Vec<u8>, spans: &Vec<Span>, pre: &Vec<u8>, suf: &Vec<u8>) -> (r: Vec<u8>)
    requires
        spans_wf(spans@),
        spans_within(spans@, text@.len() as int),
    ensures
        r@ == wrap(text@, spans@, pre@, suf@),
{
    let ghost w = wrap(text@, spans@, pre@, suf@);
    let mut out: Vec<u8> = Vec::new();
    let mut pos: usize = 0;
    let mut i: usize = 0;
    proof {
        assert(spans@.skip(0) =~= spans@);
        assert(out@ + wrap_from(text@, spans@, pre@, suf@, 0) =~= w);
    }
    while i < spans.len()
        invariant
            i <= spans@.len(),
            spans_wf(spans@),
            spans_within(spans@, text@.len() as int),
            pos == if i == 0 {
                0int
            } else {
                spans@[i - 1].end as int
            },
            pos <= text@.len(),
            out@ + wrap_from(text@, spans@.skip(i as int), pre@, suf@, pos as int) == w,
        decreases spans@.len() - i,
    {
        let sp = spans[i];
        proof {
            assert(spans@.skip(i as int)[0] == spans@[i as int]);
            if i > 0 {
                assert(spans@[i - 1].end <= spans@[i as int].start);
            }
        }
        push_range(&mut out, text, pos, sp.start as usize);
        push_all(&mut out, pre);
        push_range(&mut out, text, sp.start as usize, sp.end as usize);
        push_all(&mut out, suf);
        proof {
            assert(spans@.skip(i as int).skip(1) =~= spans@.skip(i + 1));
            assert(out@ + wrap_from(text@, spans@.skip(i + 1), pre@, suf@, sp.end as int) =~= w);
        }
        pos = sp.end as usize;
        i = i + 1;
    }
    push_range(&mut out, text, pos, text.len());
    proof {
        assert(spans@.skip(i as int) =~= Seq::<Span>::empty());
        assert(out@ =~= w);
    }
    out
}

} // verus!
