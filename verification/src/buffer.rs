use vstd::prelude::*;
use vstd::pervasive::VecAdditionalExecFns;

verus! {

/// The greatest element of a sequence of centidegree samples, `i16::MIN` for
/// the empty sequence.
pub open spec fn seq_max(s: Seq<i16>) -> i16
    decreases s.len(),
{
    if s.len() == 0 {
        i16::MIN
    } else {
        let m = seq_max(s.drop_last());
        if s.last() > m {
            s.last()
        } else {
            m
        }
    }
}

/// The samples a capacity-`c` buffer holds after the pushes in `h`: the last
/// `c` pushes once at least `c` have happened, and before that every push so
/// far padded with the zeros the buffer started from.
pub open spec fn window(h: Seq<i16>, c: nat) -> Seq<i16> {
    if h.len() >= c {
        h.subrange(h.len() - c, h.len() as int)
    } else {
        h + Seq::new((c - h.len()) as nat, |i: int| 0i16)
    }
}

/// A fixed-capacity ring of the most recent temperature samples. The smoothed
/// temperature is the maximum over the ring, so a spike keeps the fans up for
/// a full spin-down window even when cooler readings follow at once. The ring
/// starts zero-filled: until real samples fill it, the maximum is held down by
/// the zeros and the controller self-primes to its lowest duty.
pub struct SmoothingBuffer {
    slots: Vec<i16>,
    cursor: usize,
    history: Ghost<Seq<i16>>,
}

impl SmoothingBuffer {
    /// How many samples the ring holds; fixed at construction.
    pub closed spec fn capacity(&self) -> nat {
        self.slots@.len()
    }

    /// Every sample ever pushed, oldest first.
    pub closed spec fn history(&self) -> Seq<i16> {
        self.history@
    }

    /// The ring's slots mirror the push history: the newest `cursor` pushes
    /// sit below the cursor, and above it sit either the older pushes of the
    /// current window or the zeros the ring started from.
    pub closed spec fn wf(&self) -> bool {
        let c = self.slots@.len() as int;
        let n = self.history@.len() as int;
        &&& c >= 1
        &&& self.cursor < c
        &&& if n < c {
            &&& self.cursor == n
            &&& forall|i: int| 0 <= i < n ==> self.slots@[i] == self.history@[i]
            &&& forall|i: int| n <= i < c ==> self.slots@[i] == 0i16
        } else {
            &&& forall|i: int|
                0 <= i < self.cursor ==> self.slots@[i] == self.history@[n - self.cursor + i]
            &&& forall|i: int|
                self.cursor <= i < c ==> self.slots@[i] == self.history@[n - c + i - self.cursor]
        }
    }

    /// A zero-filled ring for `capacity` samples.
    pub fn new(capacity: usize) -> (r: SmoothingBuffer)
        requires
            capacity >= 1,
        ensures
            r.wf(),
            r.capacity() == capacity,
            r.history() == Seq::<i16>::empty(),
    {
        let mut slots: Vec<i16> = Vec::new();
        let mut k: usize = 0;
        while k < capacity
            invariant
                k <= capacity,
                slots@.len() == k,
                forall|i: int| 0 <= i < k ==> slots@[i] == 0i16,
            decreases capacity - k,
        {
            slots.push(0);
            k = k + 1;
        }
        SmoothingBuffer { slots, cursor: 0, history: Ghost(Seq::empty()) }
    }

    /// Records the newest sample over the oldest slot.
    pub fn push(&mut self, v: i16)
        requires
            old(self).wf(),
        ensures
            final(self).wf(),
            final(self).capacity() == old(self).capacity(),
            final(self).history() == old(self).history().push(v),
    {
        let c = self.slots.len();
        self.slots.set(self.cursor, v);
        self.cursor = if self.cursor + 1 == c {
            0
        } else {
            self.cursor + 1
        };
        proof {
            self.history@ = self.history@.push(v);
        }
    }

    /// The smoothed temperature: the maximum over the ring.
    pub fn current(&self) -> (r: i16)
        requires
            self.wf(),
        ensures
            r == seq_max(window(self.history(), self.capacity())),
    {
        let mut m: i16 = self.slots[0];
        let mut k: usize = 1;
        proof {
            assert(seq_max(Seq::<i16>::empty()) == i16::MIN);
            assert(self.slots@.take(1).drop_last() =~= Seq::<i16>::empty());
            assert(self.slots@.take(1).last() == self.slots@[0]);
        }
        while k < self.slots.len()
            invariant
                1 <= k <= self.slots@.len(),
                self.wf(),
                m == seq_max(self.slots@.take(k as int)),
            decreases self.slots@.len() - k,
        {
            let v = self.slots[k];
            proof {
                assert(self.slots@.take(k as int + 1).drop_last() =~= self.slots@.take(k as int));
                assert(self.slots@.take(k as int + 1).last() == self.slots@[k as int]);
            }
            if v > m {
                m = v;
            }
            k = k + 1;
        }
        proof {
            assert(self.slots@.take(self.slots@.len() as int) =~= self.slots@);
            self.lemma_slots_window();
        }
        m
    }

    /// The ring's slots are a rearrangement of the current window, so their
    /// maxima agree.
    proof fn lemma_slots_window(&self)
        requires
            self.wf(),
        ensures
            seq_max(self.slots@) == seq_max(window(self.history(), self.capacity())),
    {
        let c = self.slots@.len() as int;
        let n = self.history@.len() as int;
        let h = self.history@;
        if n < c {
            assert(self.slots@ =~= window(h, self.capacity()));
        } else {
            let newer = h.subrange(n - self.cursor, n);
            let older = h.subrange(n - c, n - self.cursor);
            assert(self.slots@ =~= newer + older);
            assert(window(h, self.capacity()) =~= older + newer);
            lemma_seq_max_concat(newer, older);
            lemma_seq_max_concat(older, newer);
        }
    }
}

/// The maximum over a concatenation is the greater of the two maxima.
pub proof fn lemma_seq_max_concat(a: Seq<i16>, b: Seq<i16>)
    ensures
        seq_max(a + b) == if seq_max(a) > seq_max(b) {
            seq_max(a)
        } else {
            seq_max(b)
        },
    decreases b.len(),
{
    if b.len() == 0 {
        assert(a + b =~= a);
    } else {
        assert((a + b).drop_last() =~= a + b.drop_last());
        lemma_seq_max_concat(a, b.drop_last());
    }
}

/// The maximum of a non-empty sequence is one of its elements.
pub proof fn lemma_seq_max_mem(s: Seq<i16>)
    requires
        s.len() > 0,
    ensures
        s.contains(seq_max(s)),
    decreases s.len(),
{
    assert(seq_max(Seq::<i16>::empty()) == i16::MIN);
    if s.len() == 1 {
        assert(s.drop_last() =~= Seq::<i16>::empty());
    }
    if seq_max(s) == s.last() {
        assert(s[s.len() - 1] == seq_max(s));
    } else {
        assert(s.len() > 1);
        lemma_seq_max_mem(s.drop_last());
        let m = seq_max(s.drop_last());
        let i = choose|i: int| 0 <= i < s.drop_last().len() && s.drop_last()[i] == m;
        assert(s[i] == m);
    }
}

/// No element exceeds the maximum.
pub proof fn lemma_seq_max_bound(s: Seq<i16>)
    ensures
        forall|i: int| 0 <= i < s.len() ==> s[i] <= seq_max(s),
    decreases s.len(),
{
    if s.len() > 0 {
        lemma_seq_max_bound(s.drop_last());
        assert(forall|i: int| 0 <= i < s.len() - 1 ==> s[i] == s.drop_last()[i]);
    }
}

/// Cold-start law: while the ring is not yet full, the smoothed temperature is
/// the maximum of the pushed samples and the zeros in the unfilled slots.
pub proof fn lemma_cold_start(h: Seq<i16>, c: nat)
    requires
        h.len() < c,
    ensures
        seq_max(window(h, c)) == if seq_max(h) > 0i16 {
            seq_max(h)
        } else {
            0i16
        },
{
    let zeros = Seq::new((c - h.len()) as nat, |i: int| 0i16);
    lemma_seq_max_concat(h, zeros);
    lemma_seq_max_zeros(zeros.len() as nat);
    assert(zeros =~= Seq::new(zeros.len() as nat, |i: int| 0i16));
}

/// The maximum of a non-empty run of zeros is zero.
proof fn lemma_seq_max_zeros(k: nat)
    requires
        k > 0,
    ensures
        seq_max(Seq::new(k, |i: int| 0i16)) == 0i16,
    decreases k,
{
    let s = Seq::new(k, |i: int| 0i16);
    assert(seq_max(Seq::<i16>::empty()) == i16::MIN);
    assert(s.last() == 0i16);
    if k == 1 {
        assert(s.drop_last() =~= Seq::<i16>::empty());
    } else {
        assert(s.drop_last() =~= Seq::new((k - 1) as nat, |i: int| 0i16));
        lemma_seq_max_zeros((k - 1) as nat);
    }
}

/// Sliding-window law: once at least `c` samples have been pushed, the
/// smoothed temperature is the maximum of exactly the last `c` of them.
pub proof fn lemma_sliding_window(h: Seq<i16>, c: nat)
    requires
        h.len() >= c,
        c >= 1,
    ensures
        seq_max(window(h, c)) == seq_max(h.subrange(h.len() - c, h.len() as int)),
{
}

/// Order-invariance law: the smoothed temperature depends only on which
/// samples the window holds, not on the order they arrived in.
pub proof fn lemma_order_invariance(s1: Seq<i16>, s2: Seq<i16>)
    requires
        s1.to_multiset() == s2.to_multiset(),
    ensures
        seq_max(s1) == seq_max(s2),
{
    s1.to_multiset_ensures();
    s2.to_multiset_ensures();
    if s1.len() == 0 {
        assert(s2.len() == 0);
    } else {
        assert(s2.len() > 0);
        lemma_seq_max_mem(s1);
        lemma_seq_max_mem(s2);
        lemma_seq_max_bound(s1);
        lemma_seq_max_bound(s2);
        assert(s1.contains(seq_max(s1)));
        assert(s1.to_multiset().count(seq_max(s1)) > 0);
        assert(s2.contains(seq_max(s1)));
        assert(s2.to_multiset().count(seq_max(s2)) > 0);
        assert(s1.contains(seq_max(s2)));
        let i = choose|i: int| 0 <= i < s2.len() && s2[i] == seq_max(s1);
        let j = choose|j: int| 0 <= j < s1.len() && s1[j] == seq_max(s2);
        assert(seq_max(s1) <= seq_max(s2));
        assert(seq_max(s2) <= seq_max(s1));
    }
}

} // verus!
