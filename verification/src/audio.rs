//! Feeding recorded samples to the decoder in chunks.
//!
//! The decoder asks for audio by naming the most samples it can take. A
//! cursor over the recording answers each request with the next samples in
//! order and signals the end once nothing is left.

use vstd::prelude::*;

verus! {

/// How many samples a request for at most `max_len` gets when `remaining`
/// are left.
pub open spec fn chunk_len(remaining: nat, max_len: nat) -> nat {
    if max_len < remaining {
        max_len
    } else {
        remaining
    }
}

/// What a request for at most `max_len` samples returns when `remaining` is
/// what has not been delivered yet: the end signal when nothing is left,
/// otherwise the next samples in order.
pub open spec fn supplied(remaining: Seq<i16>, max_len: nat) -> Option<Seq<i16>> {
    if remaining.len() == 0 {
        None
    } else {
        Some(remaining.take(chunk_len(remaining.len(), max_len) as int))
    }
}

/// What is left undelivered after a request for at most `max_len` samples.
pub open spec fn left_after(remaining: Seq<i16>, max_len: nat) -> Seq<i16> {
    remaining.skip(chunk_len(remaining.len(), max_len) as int)
}

/// What is left undelivered after `calls` requests of at most `max_len`
/// samples each.
pub open spec fn left_after_calls(samples: Seq<i16>, max_len: nat, calls: nat) -> Seq<i16>
    decreases calls,
{
    if calls == 0 {
        samples
    } else {
        left_after(left_after_calls(samples, max_len, (calls - 1) as nat), max_len)
    }
}

/// Everything the first `calls` requests of at most `max_len` samples each
/// have returned, one chunk after the other.
pub open spec fn delivered(samples: Seq<i16>, max_len: nat, calls: nat) -> Seq<i16>
    decreases calls,
{
    if calls == 0 {
        Seq::empty()
    } else {
        let before = (calls - 1) as nat;
        match supplied(left_after_calls(samples, max_len, before), max_len) {
            Some(chunk) => delivered(samples, max_len, before) + chunk,
            None => delivered(samples, max_len, before),
        }
    }
}

/// The number of chunks of at most `max_len` samples that `len` samples make.
pub open spec fn chunk_count(len: nat, max_len: nat) -> nat
    recommends
        max_len >= 1,
{
    ((len + max_len - 1) / (max_len as int)) as nat
}

/// A single pass over a finite recording of 16-bit samples.
pub struct AudioCursor {
    samples: Vec<i16>,
    position: usize,
}

impl View for AudioCursor {
    type V = Seq<i16>;

    /// The samples that have not been delivered yet, in order.
    closed spec fn view(&self) -> Seq<i16> {
        self.samples@.skip(self.position as int)
    }
}

impl AudioCursor {
    #[verifier::type_invariant]
    spec fn in_bounds(self) -> bool {
        self.position <= self.samples.len()
    }

    /// A cursor at the start of `samples`.
    pub fn new(samples: Vec<i16>) -> (cursor: AudioCursor)
        ensures
            cursor@ == samples@,
    {
        proof {
            assert(samples@.skip(0) =~= samples@);
        }
        AudioCursor { samples, position: 0 }
    }

    /// How many samples have not been delivered yet.
    pub fn remaining(&self) -> (count: usize)
        ensures
            count == self@.len(),
    {
        proof {
            use_type_invariant(self);
        }
        self.samples.len() - self.position
    }

    /// Answers a request for at most `max_len` samples.
    ///
    /// Returns the end signal `None` exactly when nothing was left at the
    /// time of the call. Otherwise returns the next samples in order, as many
    /// as are left up to `max_len`, and moves past them, so that no sample is
    /// delivered twice.
    pub fn next_chunk(&mut self, max_len: usize) -> (chunk: Option<Vec<i16>>)
        ensures
            match chunk {
                Some(samples) => {
                    &&& supplied(old(self)@, max_len as nat) == Some(samples@)
                    &&& final(self)@ == left_after(old(self)@, max_len as nat)
                },
                None => {
                    &&& supplied(old(self)@, max_len as nat) is None
                    &&& final(self)@ == old(self)@
                },
            },
    {
        proof {
            use_type_invariant(&*self);
        }
        let left: usize = self.samples.len() - self.position;
        if left == 0 {
            return None;
        }
        let count: usize = if max_len < left {
            max_len
        } else {
            left
        };
        let start: usize = self.position;
        let mut chunk: Vec<i16> = Vec::with_capacity(count);
        let mut taken: usize = 0;
        while taken < count
            invariant
                taken <= count,
                start + count <= self.samples.len(),
                chunk@ == self.samples@.subrange(start as int, start + taken),
            decreases count - taken,
        {
            chunk.push(self.samples[start + taken]);
            taken += 1;
            assert(chunk@ =~= self.samples@.subrange(start as int, start + taken));
        }
        self.position = start + count;
        proof {
            let before = old(self)@;
            assert(chunk@ =~= before.take(count as int));
            assert(self@ =~= before.skip(count as int));
        }
        Some(chunk)
    }
}

/// The position `pos`, held back to the end of `len` samples.
pub open spec fn clip(pos: nat, len: nat) -> nat {
    if pos < len {
        pos
    } else {
        len
    }
}

/// After `calls` requests the cursor stands `calls * max_len` samples in, or
/// at the end if the recording is shorter.
pub proof fn lemma_left_after_calls(samples: Seq<i16>, max_len: nat, calls: nat)
    ensures
        left_after_calls(samples, max_len, calls) == samples.skip(
            clip(calls * max_len, samples.len()) as int,
        ),
    decreases calls,
{
    let len = samples.len();
    if calls == 0 {
        assert(0 * max_len == 0);
        assert(samples.skip(0) =~= samples);
    } else {
        let before = (calls - 1) as nat;
        lemma_left_after_calls(samples, max_len, before);
        let p = clip(before * max_len, len);
        assert(calls * max_len == before * max_len + max_len) by (nonlinear_arith)
            requires
                before == calls - 1,
        ;
        assert(before * max_len >= 0) by (nonlinear_arith);
        let step = chunk_len(samples.skip(p as int).len(), max_len);
        assert(p + step == clip(calls * max_len, len));
        assert(samples.skip(p as int).skip(step as int) =~= samples.skip((p + step) as int));
    }
}

/// The first `calls` requests deliver the first `calls * max_len` samples,
/// or all of them if the recording is shorter.
pub proof fn lemma_delivered(samples: Seq<i16>, max_len: nat, calls: nat)
    ensures
        delivered(samples, max_len, calls) == samples.take(
            clip(calls * max_len, samples.len()) as int,
        ),
    decreases calls,
{
    let len = samples.len();
    if calls == 0 {
        assert(0 * max_len == 0);
        assert(samples.take(0) =~= Seq::<i16>::empty());
    } else {
        let before = (calls - 1) as nat;
        lemma_delivered(samples, max_len, before);
        lemma_left_after_calls(samples, max_len, before);
        let p = clip(before * max_len, len);
        assert(calls * max_len == before * max_len + max_len) by (nonlinear_arith)
            requires
                before == calls - 1,
        ;
        assert(before * max_len >= 0) by (nonlinear_arith);
        let rest = samples.skip(p as int);
        let step = chunk_len(rest.len(), max_len);
        assert(p + step == clip(calls * max_len, len));
        if rest.len() == 0 {
            assert(samples.take(p as int) =~= samples.take((p + step) as int));
        } else {
            assert(samples.take(p as int) + rest.take(step as int) =~= samples.take((p + step) as int));
        }
    }
}

/// Draining a recording in chunks of at most `max_len >= 1` samples.
///
/// A recording of `len` samples is drained by exactly `chunk_count(len,
/// max_len)` requests, the quotient `len / max_len` rounded up. Each of them
/// returns a chunk that is not empty: request `k`, counted from zero, returns
/// the samples from `k * max_len` up to `(k + 1) * max_len`, or up to the end
/// if that comes first. The request after them returns the end signal and
/// leaves the cursor as it is. The chunks in the order of the requests make
/// up the recording, every sample once and in its place.
pub proof fn lemma_drain(samples: Seq<i16>, max_len: nat)
    requires
        max_len >= 1,
    ensures
        forall|k: nat|
            k < chunk_count(samples.len(), max_len) ==> {
                let from = k * max_len;
                let to = clip(from + max_len, samples.len());
                &&& from < to
                &&& #[trigger] supplied(left_after_calls(samples, max_len, k), max_len) == Some(
                    samples.subrange(from as int, to as int),
                )
            },
        supplied(
            left_after_calls(samples, max_len, chunk_count(samples.len(), max_len)),
            max_len,
        ) is None,
        left_after_calls(samples, max_len, chunk_count(samples.len(), max_len) + 1)
            == left_after_calls(samples, max_len, chunk_count(samples.len(), max_len)),
        delivered(samples, max_len, chunk_count(samples.len(), max_len)) == samples,
{
    let len = samples.len();
    let count = chunk_count(len, max_len);
    assert(count * max_len >= len && (count - 1) * max_len < len) by (nonlinear_arith)
        requires
            max_len >= 1,
            count == (len + max_len - 1) / (max_len as int),
    ;
    assert forall|k: nat| k < count implies {
        let from = k * max_len;
        let to = clip(from + max_len, len);
        &&& from < to
        &&& #[trigger] supplied(left_after_calls(samples, max_len, k), max_len) == Some(
            samples.subrange(from as int, to as int),
        )
    } by {
        lemma_left_after_calls(samples, max_len, k);
        assert(0 <= k * max_len <= (count - 1) * max_len) by (nonlinear_arith)
            requires
                k <= count - 1,
                max_len >= 1,
        ;
        let from = k * max_len;
        let rest = samples.skip(from as int);
        let to = clip(from + max_len, len);
        assert(rest.take(chunk_len(rest.len(), max_len) as int) =~= samples.subrange(
            from as int,
            to as int,
        ));
    }
    lemma_left_after_calls(samples, max_len, count);
    lemma_left_after_calls(samples, max_len, count + 1);
    assert((count + 1) * max_len >= count * max_len) by (nonlinear_arith);
    lemma_delivered(samples, max_len, count);
    assert(samples.take(len as int) =~= samples);
}

} // verus!
