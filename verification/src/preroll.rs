//! A ring of the most recent audio samples.

use std::collections::VecDeque;

use vstd::prelude::*;

verus! {

/// The last `n` items of `s`, or all of them where there are no more than `n`.
pub open spec fn newest<T>(s: Seq<T>, n: nat) -> Seq<T> {
    if s.len() <= n {
        s
    } else {
        s.skip(s.len() - n)
    }
}

/// Fixed-capacity ring buffer over audio samples.
///
/// The push-to-talk session uses it to carry the last few hundred
/// milliseconds of microphone audio from before the hotkey press into each
/// utterance: people start to speak before the press registers, and without
/// this the first phoneme would be clipped.
///
/// The capacity is in samples (not bytes, not milliseconds); callers convert.
/// A zero capacity is valid and turns the ring into a no-op: `push` discards,
/// `drain_into` moves nothing.
pub struct PreRoll<T> {
    cap: usize,
    buf: VecDeque<T>,
}

impl<T> PreRoll<T> {
    /// How many samples the ring can hold.
    pub closed spec fn cap(self) -> nat {
        self.cap as nat
    }

    /// The ring never holds more than its capacity.
    pub open spec fn wf(self) -> bool {
        self@.len() <= self.cap()
    }
}

impl<T> View for PreRoll<T> {
    type V = Seq<T>;

    closed spec fn view(&self) -> Seq<T> {
        self.buf@
    }
}

impl<T: Copy> PreRoll<T> {
    /// An empty ring for `cap_samples` samples.
    pub fn new(cap_samples: usize) -> (r: Self)
        ensures
            r.wf(),
            r.cap() == cap_samples,
            r@ == Seq::<T>::empty(),
    {
        PreRoll { cap: cap_samples, buf: VecDeque::new() }
    }

    /// How many samples the ring can hold.
    pub fn capacity(&self) -> (r: usize)
        ensures
            r == self.cap(),
    {
        self.cap
    }

    /// Append `chunk` to the ring, evicting the oldest samples so that the
    /// ring never holds more than its capacity.
    pub fn push(&mut self, chunk: &[T])
        requires
            old(self).wf(),
        ensures
            final(self).wf(),
            final(self).cap() == old(self).cap(),
            final(self)@ == newest(old(self)@ + chunk@, old(self).cap()),
    {
        if self.cap == 0 {
            return;
        }
        let start: usize = if chunk.len() > self.cap {
            chunk.len() - self.cap
        } else {
            0
        };
        let keep: usize = chunk.len() - start;
        let room: usize = self.cap - self.buf.len();
        let overflow: usize = if keep > room {
            keep - room
        } else {
            0
        };
        let ghost before = self.buf@;
        let ghost cap = self.cap;
        for i in 0..overflow
            invariant
                overflow <= before.len(),
                self.cap == cap,
                self.buf@ == before.skip(i as int),
        {
            self.buf.pop_front();
        }
        for i in start..chunk.len()
            invariant
                self.cap == cap,
                overflow <= before.len(),
                start <= i <= chunk@.len(),
                self.buf@ == before.skip(overflow as int) + chunk@.subrange(start as int, i as int),
        {
            self.buf.push_back(chunk[i]);
            assert(chunk@.subrange(start as int, i + 1) == chunk@.subrange(
                start as int,
                i as int,
            ).push(chunk@[i as int]));
        }
        assert(self.buf@ == newest(before + chunk@, cap as nat));
    }

    /// Move the ring's contents, oldest first, to the front of `target`,
    /// leaving the ring empty.
    pub fn drain_into(&mut self, target: &mut Vec<T>)
        requires
            old(self).wf(),
        ensures
            final(self).wf(),
            final(self).cap() == old(self).cap(),
            final(self)@ == Seq::<T>::empty(),
            final(target)@ == old(self)@ + old(target)@,
    {
        let mut prepend: Vec<T> = Vec::new();
        let ghost before = self.buf@;
        let ghost cap = self.cap;
        let n: usize = self.buf.len();
        for i in 0..n
            invariant
                n == before.len(),
                self.cap == cap,
                self.buf@ == before.skip(i as int),
                prepend@ == before.take(i as int),
        {
            let sample = self.buf.pop_front();
            match sample {
                Some(s) => {
                    prepend.push(s);
                },
                None => {},
            }
        }
        assert(before.take(n as int) == before);
        prepend.append(target);
        *target = prepend;
    }

    /// Forget everything in the ring.
    pub fn clear(&mut self)
        ensures
            final(self).wf(),
            final(self).cap() == old(self).cap(),
            final(self)@ == Seq::<T>::empty(),
    {
        self.buf.clear();
    }

    /// How many samples the ring holds.
    pub fn len(&self) -> (r: usize)
        ensures
            r == self@.len(),
    {
        self.buf.len()
    }

    /// Whether the ring holds no sample.
    pub fn is_empty(&self) -> (r: bool)
        ensures
            r == (self@.len() == 0),
    {
        self.buf.len() == 0
    }
}

/// How many samples `millis` milliseconds of audio take at `sample_rate`
/// samples a second, rounded down.
pub open spec fn samples_for(sample_rate: u32, millis: u32) -> int {
    (sample_rate as int * millis as int) / 1000
}

/// The ring capacity for `millis` milliseconds at `sample_rate`, or the
/// largest capacity there is where that is more than an address can count.
pub fn preroll_samples(sample_rate: u32, millis: u32) -> (r: usize)
    ensures
        r == if samples_for(sample_rate, millis) <= usize::MAX {
            samples_for(sample_rate, millis)
        } else {
            usize::MAX as int
        },
{
    proof {
        assert(0 <= sample_rate as int * millis as int <= 0xffff_ffff * 0xffff_ffff)
            by (nonlinear_arith)
            requires
                0 <= sample_rate <= 0xffff_ffff,
                0 <= millis <= 0xffff_ffff,
        ;
    }
    let n: u64 = sample_rate as u64 * millis as u64 / 1000;
    let limit: u64 = usize::MAX as u64;
    if n <= limit {
        n as usize
    } else {
        usize::MAX
    }
}

/// Pushing one chunk after another leaves the ring as pushing both at once
/// would: how the audio was cut into chunks does not show.
pub proof fn push_in_pieces<T>(ring: Seq<T>, first: Seq<T>, second: Seq<T>, cap: nat)
    ensures
        newest(newest(ring + first, cap) + second, cap) == newest(ring + (first + second), cap),
{
    assert(ring + (first + second) == (ring + first) + second);
    assert(newest(newest(ring + first, cap) + second, cap) =~= newest((ring + first) + second, cap));
}

// ---------------------------------------------------------------------------
// Laws
// ---------------------------------------------------------------------------

/// The newest items are the end of the sequence: as many as are wanted, or all.
pub proof fn newest_is_the_end<T>(s: Seq<T>, n: nat)
    ensures
        newest(s, n).len() == if s.len() < n {
            s.len()
        } else {
            n
        },
        forall|i: int|
            0 <= i < newest(s, n).len() ==> #[trigger] newest(s, n)[i] == s[s.len() - newest(
                s,
                n,
            ).len() + i],
{
}

/// A thousand milliseconds are as many samples as the rate says, and every time is
/// counted in proportion, rounded down.
pub proof fn samples_are_in_proportion(rate: u32, millis: u32)
    ensures
        samples_for(rate, 1000) == rate,
        samples_for(rate, 0) == 0,
        samples_for(rate, millis) * 1000 <= rate as int * millis as int,
        rate as int * millis as int - samples_for(rate, millis) * 1000 < 1000,
{
    assert(rate as int * 1000 / 1000 == rate) by (nonlinear_arith);
    assert(rate as int * 0 == 0) by (nonlinear_arith);
    let product = rate as int * millis as int;
    assert(product >= 0) by (nonlinear_arith)
        requires
            product == rate as int * millis as int,
    ;
    assert(product / 1000 * 1000 <= product && product - product / 1000 * 1000 < 1000);
}

/// A ring keeps the newest of what it held and what was pushed, in order, as much as
/// it holds; its capacity stays.
pub proof fn rings_keep_the_newest<T: Copy>(ring: &mut PreRoll<T>, chunk: &[T])
    requires
        old(ring).wf(),
        call_ensures(PreRoll::<T>::push, (ring, chunk), ()),
    ensures
        final(ring)@.is_suffix_of(old(ring)@ + chunk@),
        final(ring)@.len() <= old(ring).cap(),
        final(ring)@.len() < old(ring).cap() ==> final(ring)@ == old(ring)@ + chunk@,
        final(ring).cap() == old(ring).cap(),
{
    let all = old(ring)@ + chunk@;
    assert(all.subrange(all.len() - final(ring)@.len(), all.len() as int) =~= final(ring)@);
}

/// What is drained comes before what was there, the oldest first, and the ring is
/// empty afterwards.
pub proof fn rings_are_drained_in_order<T: Copy>(ring: &mut PreRoll<T>, target: &mut Vec<T>)
    requires
        old(ring).wf(),
        call_ensures(PreRoll::<T>::drain_into, (ring, target), ()),
    ensures
        final(target)@.len() == old(ring)@.len() + old(target)@.len(),
        old(ring)@.is_prefix_of(final(target)@),
        old(target)@.is_suffix_of(final(target)@),
        final(ring)@.len() == 0,
        final(ring).cap() == old(ring).cap(),
{
    let all = final(target)@;
    assert(all.subrange(0, old(ring)@.len() as int) =~= old(ring)@);
    assert(all.subrange(old(ring)@.len() as int, all.len() as int) =~= old(target)@);
}

/// The ring for a time at a rate is as long as the audio of that time.
pub proof fn rings_are_long_enough(rate: u32, millis: u32, r: usize)
    requires
        call_ensures(preroll_samples, (rate, millis), r),
        rate as int * millis as int <= usize::MAX,
    ensures
        r * 1000 <= rate as int * millis as int,
        rate as int * millis as int - r * 1000 < 1000,
{
    samples_are_in_proportion(rate, millis);
}

/// A ring tells its size as it is, and forgets everything when it is cleared.
pub proof fn rings_tell_their_size<T: Copy>(
    ring: PreRoll<T>,
    len: usize,
    empty: bool,
    cap: usize,
    cleared: &mut PreRoll<T>,
    wanted: usize,
    fresh: PreRoll<T>,
)
    requires
        call_ensures(PreRoll::<T>::len, (&ring,), len),
        call_ensures(PreRoll::<T>::is_empty, (&ring,), empty),
        call_ensures(PreRoll::<T>::capacity, (&ring,), cap),
        call_ensures(PreRoll::<T>::clear, (cleared,), ()),
        call_ensures(PreRoll::<T>::new, (wanted,), fresh),
    ensures
        len == ring@.len(),
        empty <==> len == 0,
        cap == ring.cap(),
        final(cleared)@.len() == 0,
        final(cleared).cap() == old(cleared).cap(),
        fresh.cap() == wanted,
        fresh@.len() == 0,
{
}

} // verus!
