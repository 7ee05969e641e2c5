//! The rewindable token cursor the parsers share: lookahead, advance,
//! step-back, and inspection of the last- and previously-returned tokens.
use vstd::prelude::*;
use crate::span::Span;
use crate::token::Token;

verus! {

/// A cursor over a finite sequence of `(token, span)` pairs. `idx` is the
/// position of the next token to hand out; `toks[idx - 1]` is the one handed
/// out last.
pub struct Buffer {
    pub toks: Vec<(Token, Span)>,
    pub idx: usize,
}

impl Buffer {
    /// A cursor at the start of `toks`.
    pub fn new(toks: Vec<(Token, Span)>) -> (r: Buffer)
        ensures
            r.toks == toks,
            r.idx == 0,
    {
        Buffer { toks, idx: 0 }
    }

    /// Advances past the next token and returns a copy of it, or `None` at
    /// the end of the stream.
    pub fn next(&mut self) -> (r: Option<(Token, Span)>)
        ensures
            final(self).toks == old(self).toks,
            old(self).idx < old(self).toks@.len() ==> final(self).idx == old(self).idx + 1 && r
                == Some(old(self).toks@[old(self).idx as int]),
            old(self).idx >= old(self).toks@.len() ==> final(self).idx == old(self).idx
                && r is None,
    {
        if self.idx < self.toks.len() {
            let pair = &self.toks[self.idx];
            self.idx = self.idx + 1;
            Some((pair.0.clone(), pair.1))
        } else {
            None
        }
    }

    /// Returns a copy of the next token without advancing.
    pub fn peek(&self) -> (r: Option<(Token, Span)>)
        ensures
            self.idx < self.toks@.len() ==> r == Some(self.toks@[self.idx as int]),
            self.idx >= self.toks@.len() ==> r is None,
    {
        if self.idx < self.toks.len() {
            let pair = &self.toks[self.idx];
            Some((pair.0.clone(), pair.1))
        } else {
            None
        }
    }

    /// Returns a copy of the token returned last, if any was.
    pub fn current(&self) -> (r: Option<(Token, Span)>)
        ensures
            self.idx >= 1 && self.idx <= self.toks@.len() ==> r == Some(
                self.toks@[self.idx - 1],
            ),
            !(self.idx >= 1 && self.idx <= self.toks@.len()) ==> r is None,
    {
        if self.idx >= 1 && self.idx <= self.toks.len() {
            let pair = &self.toks[self.idx - 1];
            Some((pair.0.clone(), pair.1))
        } else {
            None
        }
    }

    /// Returns a copy of the token returned before the last one, if any.
    pub fn prev(&self) -> (r: Option<(Token, Span)>)
        ensures
            self.idx >= 2 && self.idx <= self.toks@.len() ==> r == Some(
                self.toks@[self.idx - 2],
            ),
            !(self.idx >= 2 && self.idx <= self.toks@.len()) ==> r is None,
    {
        if self.idx >= 2 && self.idx <= self.toks.len() {
            let pair = &self.toks[self.idx - 2];
            Some((pair.0.clone(), pair.1))
        } else {
            None
        }
    }

    /// Steps back over the token returned last.
    pub fn rewind(&mut self)
        requires
            old(self).idx >= 1,
        ensures
            final(self).toks == old(self).toks,
            final(self).idx == old(self).idx - 1,
    {
        self.idx = self.idx - 1;
    }

    /// The span of the token returned before the last one, or the zero span
    /// where no such token exists.
    pub fn prev_span_or_zero(&self) -> (r: Span)
        ensures
            r == spec_prev_span_or_zero(self.toks@, self.idx as int),
    {
        match self.prev() {
            Some((_, s)) => s,
            None => Span { start: 0, end: 0 },
        }
    }
}

/// The scanner's output is ordered: every token's span is non-empty and ends
/// no later than the next one starts.
pub open spec fn toks_ordered(toks: Seq<(Token, Span)>) -> bool {
    forall|i: int|
        0 <= i < toks.len() ==> #[trigger] toks[i].1.start < toks[i].1.end && (i + 1 < toks.len()
            ==> toks[i].1.end <= toks[i + 1].1.start)
}

/// In an ordered stream, earlier tokens end before later ones start.
pub proof fn lemma_toks_ordered_mono(toks: Seq<(Token, Span)>, x: int, y: int)
    requires
        toks_ordered(toks),
        0 <= x <= y < toks.len(),
    ensures
        toks[x].1.start <= toks[y].1.start,
        x < y ==> toks[x].1.end <= toks[y].1.start,
    decreases y - x,
{
    if x < y {
        lemma_toks_ordered_mono(toks, x + 1, y);
    }
}

/// The span two positions back of `idx` in `toks`, or the zero span.
pub open spec fn spec_prev_span_or_zero(toks: Seq<(Token, Span)>, idx: int) -> Span {
    if idx >= 2 && idx <= toks.len() {
        toks[idx - 2].1
    } else {
        Span { start: 0, end: 0 }
    }
}

} // verus!
