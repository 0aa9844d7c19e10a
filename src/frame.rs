//! Framed reading: bytes accumulate one at a time until the terminator,
//! under a cap on how many may arrive before it.
use vstd::prelude::*;

use crate::codec::{has_terminator_pair, pair_at};

verus! {

/// The largest cap a frame may have: the reader's scratch space.
pub const BUFFER_SIZE: usize = 256;

/// What one byte does to a frame in progress.
pub ghost enum StepView {
    Pending(Seq<u8>),
    Complete(Seq<u8>),
    TooLong,
}

/// Whether `s` ends with the terminator.
pub open spec fn ends_with_terminator(s: Seq<u8>) -> bool {
    s.len() >= 2 && s[s.len() - 2] == 7 && s[s.len() - 1] == 8
}

/// One byte `b` arriving after `held`, under cap `max_len`: the frame is
/// complete when the last two bytes are the terminator, so a payload of up
/// to `max_len - 1` bytes is read; it is too long once more than `max_len`
/// bytes have come, or `max_len` bytes whose last is not the terminator's
/// first byte.
pub open spec fn step(max_len: nat, held: Seq<u8>, b: u8) -> StepView {
    let s = held.push(b);
    if ends_with_terminator(s) {
        StepView::Complete(s.subrange(0, s.len() - 2))
    } else if s.len() > max_len || (s.len() == max_len && b != 7) {
        StepView::TooLong
    } else {
        StepView::Pending(s)
    }
}

/// Feeding `input` byte by byte after `held`; the first outcome that is
/// not pending, or the bytes held at the end.
pub open spec fn feed(max_len: nat, held: Seq<u8>, input: Seq<u8>) -> StepView
    decreases input.len(),
{
    if input.len() == 0 {
        StepView::Pending(held)
    } else {
        match step(max_len, held, input[0]) {
            StepView::Pending(h) => feed(max_len, h, input.drop_first()),
            other => other,
        }
    }
}

/// The outcome of one byte.
#[derive(Debug)]
pub enum FrameStep {
    Pending,
    Complete(Vec<u8>),
    TooLong,
}

/// A frame being read under a cap of `max_len` bytes, terminator included.
pub struct FrameReader {
    held: Vec<u8>,
    max_len: usize,
}

impl FrameReader {
    pub closed spec fn held(&self) -> Seq<u8> {
        self.held@
    }

    pub closed spec fn cap(&self) -> nat {
        self.max_len as nat
    }

    pub open spec fn wf(&self) -> bool {
        &&& 2 <= self.cap() <= BUFFER_SIZE
        &&& self.held().len() <= self.cap()
        &&& (self.held().len() == self.cap() ==> self.held().last() == 7)
        &&& !has_terminator_pair(self.held())
    }

    pub fn new(max_len: usize) -> (r: FrameReader)
        requires
            2 <= max_len <= BUFFER_SIZE,
        ensures
            r.wf(),
            r.cap() == max_len,
            r.held() == Seq::<u8>::empty(),
    {
        FrameReader { held: Vec::new(), max_len }
    }

    /// Takes one byte. A complete or too long frame leaves the reader empty.
    pub fn push(&mut self, b: u8) -> (r: FrameStep)
        requires
            old(self).wf(),
        ensures
            final(self).wf(),
            final(self).cap() == old(self).cap(),
            match (r, step(old(self).cap(), old(self).held(), b)) {
                (FrameStep::Pending, StepView::Pending(h)) => final(self).held() == h,
                (FrameStep::Complete(p), StepView::Complete(q)) => p@ == q
                    && final(self).held().len() == 0,
                (FrameStep::TooLong, StepView::TooLong) => final(self).held().len() == 0,
                _ => false,
            },
    {
        let ghost old_held = self.held@;
        self.held.push(b);
        let n = self.held.len();
        if n >= 2 && self.held[n - 2] == 7 && self.held[n - 1] == 8 {
            let mut payload: Vec<u8> = Vec::new();
            let mut i: usize = 0;
            while i < n - 2
                invariant
                    n == self.held@.len(),
                    n >= 2,
                    i <= n - 2,
                    payload@ == self.held@.subrange(0, i as int),
                decreases n - 2 - i,
            {
                payload.push(self.held[i]);
                i += 1;
                assert(payload@ =~= self.held@.subrange(0, i as int));
            }
            self.held = Vec::new();
            assert(!has_terminator_pair(Seq::<u8>::empty()));
            FrameStep::Complete(payload)
        } else if n > self.max_len || (n == self.max_len && b != 7) {
            self.held = Vec::new();
            assert(!has_terminator_pair(Seq::<u8>::empty()));
            FrameStep::TooLong
        } else {
            assert forall|i: int| !pair_at(self.held@, i) by {
                if pair_at(self.held@, i) && i + 2 < n {
                    assert(pair_at(old_held, i));
                }
            }
            FrameStep::Pending
        }
    }
}

proof fn lemma_feed_payload(max_len: nat, held: Seq<u8>, q: Seq<u8>)
    requires
        held.len() <= max_len,
        held.len() == max_len ==> held.last() == 7,
        !has_terminator_pair(held + q),
        held.len() == 0 || held.last() != 7 || q.len() == 0 || q[0] != 8,
    ensures
        feed(max_len, held, q + seq![7u8, 8u8]) == (if held.len() + q.len() + 1 <= max_len {
            StepView::Complete(held + q)
        } else {
            StepView::TooLong
        }),
    decreases q.len(),
{
    let input = q + seq![7u8, 8u8];
    if q.len() == 0 {
        assert(input.drop_first() =~= seq![8u8]);
        let s = held.push(7u8);
        assert(input[0] == 7);
        assert(!ends_with_terminator(s));
        if s.len() <= max_len {
            assert(step(max_len, held, 7u8) == StepView::Pending(s));
            assert(s.push(8u8).subrange(0, s.len() - 1) =~= held + q);
            assert(ends_with_terminator(s.push(8u8)));
            assert(step(max_len, s, 8u8) == StepView::Complete(held + q));
            assert(feed(max_len, s, seq![8u8]) == StepView::Complete(held + q));
        } else {
            assert(step(max_len, held, 7u8) == StepView::TooLong);
        }
    } else {
        let s = held.push(q[0]);
        assert(held + q =~= s + q.drop_first());
        assert(input.drop_first() =~= q.drop_first() + seq![7u8, 8u8]);
        assert(input[0] == q[0]);
        if held.len() > 0 && held.last() == 7 && q[0] == 8 {
            assert(pair_at(held + q, held.len() - 1));
        }
        assert(!ends_with_terminator(s));
        if s.len() > max_len || (s.len() == max_len && q[0] != 7) {
            assert(step(max_len, held, q[0]) == StepView::TooLong);
        } else {
            if q.len() > 1 && q[0] == 7 && q[1] == 8 {
                assert(pair_at(held + q, held.len() as int));
            }
            assert forall|i: int| !pair_at(s, i) by {
                if pair_at(s, i) {
                    assert(pair_at(held + q, i));
                }
            }
            assert(step(max_len, held, q[0]) == StepView::Pending(s));
            lemma_feed_payload(max_len, s, q.drop_first());
        }
    }
}

proof fn lemma_feed_no_bel(max_len: nat, held: Seq<u8>, q: Seq<u8>)
    requires
        held.len() + q.len() < max_len,
        forall|i: int| 0 <= i < held.len() ==> #[trigger] held[i] != 7,
        forall|i: int| 0 <= i < q.len() ==> #[trigger] q[i] != 7,
    ensures
        feed(max_len, held, q) == StepView::Pending(held + q),
    decreases q.len(),
{
    if q.len() == 0 {
        assert(held + q =~= held);
    } else {
        let s = held.push(q[0]);
        assert(held + q =~= s + q.drop_first());
        assert(s[s.len() - 2] != 7 || s.len() < 2);
        assert(!ends_with_terminator(s));
        assert(step(max_len, held, q[0]) == StepView::Pending(s));
        assert forall|i: int| 0 <= i < q.drop_first().len() implies #[trigger] q.drop_first()[i] != 7 by {
            assert(q.drop_first()[i] == q[i + 1]);
        }
        lemma_feed_no_bel(max_len, s, q.drop_first());
    }
}

/// A payload free of the terminator pair, sent with its terminator, is
/// read whole when it has fewer bytes than the cap, and is too long when
/// it has as many or more.
pub proof fn cap_is_enforced(max_len: nat, payload: Seq<u8>)
    requires
        2 <= max_len,
        !has_terminator_pair(payload),
    ensures
        payload.len() + 1 <= max_len ==> feed(max_len, Seq::empty(), payload + seq![7u8, 8u8])
            == StepView::Complete(payload),
        payload.len() + 1 > max_len ==> feed(max_len, Seq::empty(), payload + seq![7u8, 8u8])
            == StepView::TooLong,
{
    assert(Seq::<u8>::empty() + payload =~= payload);
    lemma_feed_payload(max_len, Seq::empty(), payload);
}

/// Bytes that hold no terminator's first byte are held until the cap is
/// reached, and the byte that reaches it makes the frame too long.
pub proof fn cap_without_terminator_is_too_long(max_len: nat, input: Seq<u8>)
    requires
        2 <= max_len,
        input.len() == max_len,
        forall|i: int| 0 <= i < input.len() ==> #[trigger] input[i] != 7,
    ensures
        feed(max_len, Seq::empty(), input.drop_last()) == StepView::Pending(input.drop_last()),
        step(max_len, input.drop_last(), input.last()) == StepView::TooLong,
{
    let init = input.drop_last();
    assert forall|i: int| 0 <= i < init.len() implies #[trigger] init[i] != 7 by {
        assert(init[i] == input[i]);
    }
    lemma_feed_no_bel(max_len, Seq::empty(), init);
    assert(Seq::<u8>::empty() + init =~= init);
    assert(init.push(input.last()) =~= input);
    assert(input[input.len() - 2] != 7);
}

} // verus!
