//! Fixed-capacity ring buffer for audio samples.
//!
//! Holds the most recent `capacity` samples pushed since the last drain;
//! pushing into a full buffer overwrites the oldest sample.  The buffer is
//! generic over the sample type: the audio path instantiates it with `f32`.
use vstd::prelude::*;

verus! {

/// Index `start + i` wrapped once around a buffer of `cap` slots.
pub open spec fn wrap(start: int, i: int, cap: int) -> int {
    if start + i < cap {
        start + i
    } else {
        start + i - cap
    }
}

/// The contents after pushing `x` into a buffer of capacity `cap` holding `s`.
pub open spec fn push_spec<T>(s: Seq<T>, x: T, cap: nat) -> Seq<T> {
    if s.len() < cap {
        s.push(x)
    } else {
        s.drop_first().push(x)
    }
}

/// The contents after pushing every element of `xs`, in order.
pub open spec fn push_all<T>(s: Seq<T>, xs: Seq<T>, cap: nat) -> Seq<T>
    decreases xs.len(),
{
    if xs.len() == 0 {
        s
    } else {
        push_spec(push_all(s, xs.drop_last(), cap), xs.last(), cap)
    }
}

/// The last `n` elements of `s` (all of `s` when it is shorter).
pub open spec fn keep_last<T>(s: Seq<T>, n: nat) -> Seq<T> {
    if s.len() <= n {
        s
    } else {
        s.skip(s.len() - n)
    }
}

/// A ring buffer of samples.
pub struct RingBuffer<T> {
    buf: Vec<T>,
    cap: usize,
    head: usize,
    len: usize,
}

impl<T: Copy> RingBuffer<T> {
    /// The internal invariant.
    pub closed spec fn wf(&self) -> bool {
        &&& self.len <= self.cap
        &&& self.buf@.len() <= self.cap
        &&& self.len < self.cap ==> self.buf@.len() == self.len && self.head == self.len
        &&& self.len == self.cap ==> self.buf@.len() == self.cap && (self.cap > 0 ==> self.head
            < self.cap)
        &&& self.cap == 0 ==> self.head == 0
    }

    /// The number of samples the buffer holds at most.
    pub closed spec fn capacity(&self) -> nat {
        self.cap as nat
    }

    /// The slot of the oldest sample.
    closed spec fn start(&self) -> int {
        if self.len < self.cap {
            0
        } else {
            self.head as int
        }
    }

    /// The samples held, oldest first.
    pub closed spec fn contents(&self) -> Seq<T> {
        Seq::new(
            self.len as nat,
            |i: int| self.buf@[wrap(self.start(), i, self.cap as int)],
        )
    }

    /// A buffer that holds `capacity` samples.
    pub fn new(capacity: usize) -> (rb: Self)
        ensures
            rb.wf(),
            rb.capacity() == capacity,
            rb.contents() == Seq::<T>::empty(),
    {
        let rb = RingBuffer { buf: Vec::new(), cap: capacity, head: 0, len: 0 };
        assert(rb.contents() =~= Seq::<T>::empty());
        rb
    }

    /// Push one sample, overwriting the oldest if the buffer is full.
    pub fn push(&mut self, sample: T)
        requires
            old(self).wf(),
            old(self).capacity() > 0,
        ensures
            final(self).wf(),
            final(self).capacity() == old(self).capacity(),
            final(self).contents() == push_spec(old(self).contents(), sample, old(self).capacity()),
    {
        let cap = self.cap;
        let ghost old_contents = self.contents();
        if self.len < cap {
            self.buf.push(sample);
            proof {
                vstd::arithmetic::div_mod::lemma_small_mod(self.head as nat, cap as nat);
            }
            if self.head + 1 < cap {
                proof {
                    vstd::arithmetic::div_mod::lemma_small_mod((self.head + 1) as nat, cap as nat);
                }
            } else {
                proof {
                    vstd::arithmetic::div_mod::lemma_mod_self_0(cap as int);
                }
            }
            self.head = (self.head + 1) % cap;
            self.len = self.len + 1;
            assert(self.contents() =~= old_contents.push(sample));
        } else {
            let h = self.head;
            proof {
                vstd::arithmetic::div_mod::lemma_small_mod(h as nat, cap as nat);
            }
            self.buf.set(h % cap, sample);
            if h + 1 < cap {
                proof {
                    vstd::arithmetic::div_mod::lemma_small_mod((h + 1) as nat, cap as nat);
                }
            } else {
                proof {
                    vstd::arithmetic::div_mod::lemma_mod_self_0(cap as int);
                }
            }
            self.head = (h + 1) % cap;
            let ghost nh = self.head as int;
            assert forall|i: int| 0 <= i < cap implies #[trigger] self.contents()[i] == (
            old_contents.drop_first().push(sample))[i] by {
                if i < cap - 1 {
                    assert(wrap(nh, i, cap as int) == wrap(h as int, i + 1, cap as int));
                    assert(wrap(h as int, i + 1, cap as int) != h);
                } else {
                    assert(wrap(nh, i, cap as int) == h);
                }
            }
            assert(self.contents() =~= old_contents.drop_first().push(sample));
        }
    }

    /// Remove and return every sample, oldest first.
    pub fn drain(&mut self) -> (out: Vec<T>)
        requires
            old(self).wf(),
        ensures
            final(self).wf(),
            final(self).capacity() == old(self).capacity(),
            out@ == old(self).contents(),
            final(self).contents() == Seq::<T>::empty(),
    {
        let cap = self.cap;
        let start = if self.len < cap {
            0
        } else {
            self.head
        };
        let mut out: Vec<T> = Vec::with_capacity(self.len);
        let mut i: usize = 0;
        while i < self.len
            invariant
                self.wf(),
                self.cap == cap,
                start == self.start(),
                i <= self.len,
                out@ == self.contents().take(i as int),
            decreases self.len - i,
        {
            // (start + i) % cap, computed without overflowing
            let slot = if start < cap - i {
                start + i
            } else {
                start - (cap - i)
            };
            out.push(self.buf[slot]);
            assert(self.contents().take(i as int).push(self.contents()[i as int])
                =~= self.contents().take(i + 1));
            i = i + 1;
        }
        assert(self.contents().take(self.len as int) =~= self.contents());
        self.buf.clear();
        self.head = 0;
        self.len = 0;
        assert(self.contents() =~= Seq::<T>::empty());
        out
    }

    /// The number of samples held.
    pub fn len(&self) -> (n: usize)
        requires
            self.wf(),
        ensures
            n == self.contents().len(),
    {
        self.len
    }

    /// Whether the buffer holds no sample.
    pub fn is_empty(&self) -> (b: bool)
        requires
            self.wf(),
        ensures
            b == (self.contents().len() == 0),
    {
        self.len == 0
    }

    /// The buffer never holds more than its capacity.
    pub proof fn lemma_within_capacity(&self)
        requires
            self.wf(),
        ensures
            self.contents().len() <= self.capacity(),
    {
    }
}

/// Pushing a sequence of samples into a buffer leaves exactly the latest
/// `cap` of everything held and pushed, oldest first.
pub proof fn lemma_keeps_latest<T>(s: Seq<T>, xs: Seq<T>, cap: nat)
    requires
        cap > 0,
        s.len() <= cap,
    ensures
        push_all(s, xs, cap) == keep_last(s + xs, cap),
    decreases xs.len(),
{
    if xs.len() > 0 {
        let ys = xs.drop_last();
        lemma_keeps_latest(s, ys, cap);
        let prev = keep_last(s + ys, cap);
        let all = s + xs;
        assert(all =~= (s + ys).push(xs.last()));
        if (s + ys).len() < cap {
            assert(prev.push(xs.last()) =~= keep_last(all, cap));
        } else {
            assert(prev.drop_first().push(xs.last()) =~= keep_last(all, cap));
        }
    } else {
        assert(s + xs =~= s);
    }
}

} // verus!
