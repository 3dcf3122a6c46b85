use vstd::prelude::*;

verus! {

use vstd::pervasive::VecAdditionalExecFns;

/// A fixed-width rolling window of samples: one slot per screen column,
/// oldest first. The width never changes after construction; each push
/// drops the oldest slot and appends the newest sample.
pub struct History {
    slots: Vec<u16>,
}

impl View for History {
    type V = Seq<u16>;

    closed spec fn view(&self) -> Seq<u16> {
        self.slots@
    }
}

/// One rotation step of a window: the oldest slot leaves, the new sample
/// enters at the end. A zero-width window stays empty.
pub open spec fn shifted(s: Seq<u16>, v: u16) -> Seq<u16> {
    if s.len() == 0 {
        s
    } else {
        s.subrange(1, s.len() as int).push(v)
    }
}

/// The window after a whole sequence of samples has been pushed in order.
pub open spec fn shifted_all(s: Seq<u16>, vals: Seq<u16>) -> Seq<u16>
    decreases vals.len(),
{
    if vals.len() == 0 {
        s
    } else {
        shifted_all(shifted(s, vals[0]), vals.skip(1))
    }
}

/// Law: a history buffer keeps exactly its initial width under any number of
/// pushes, and the window always holds the most recent samples in order: it
/// equals the last `width` entries of the original contents followed by
/// everything pushed. In particular, once at least `width` samples have been
/// pushed, exactly the `width` most recent pushed samples remain.
pub proof fn lemma_history_retains_recent(s: Seq<u16>, vals: Seq<u16>)
    ensures
        shifted_all(s, vals).len() == s.len(),
        shifted_all(s, vals) =~= (s + vals).subrange(vals.len() as int, vals.len() + s.len() as int),
        vals.len() >= s.len() ==> shifted_all(s, vals) =~= vals.subrange(
            vals.len() - s.len(),
            vals.len() as int,
        ),
    decreases vals.len(),
{
    if vals.len() == 0 {
        assert((s + vals).subrange(0, s.len() as int) =~= s);
    } else {
        let s1 = shifted(s, vals[0]);
        lemma_history_retains_recent(s1, vals.skip(1));
        assert(s1 + vals.skip(1) =~= (s + vals).skip(1)) by {
            if s.len() == 0 {
                assert(s1 + vals.skip(1) =~= vals.skip(1));
                assert((s + vals).skip(1) =~= vals.skip(1));
            } else {
                assert(s1 =~= s.subrange(1, s.len() as int).push(vals[0]));
            }
        }
        assert(shifted_all(s, vals) =~= (s + vals).subrange(
            vals.len() as int,
            vals.len() + s.len() as int,
        ));
    }
}

impl History {
    /// A zero-filled window of the given width.
    pub fn new(width: usize) -> (h: History)
        ensures
            h@.len() == width,
            forall|i: int| 0 <= i < width ==> h@[i] == 0u16,
    {
        let mut slots: Vec<u16> = Vec::new();
        while slots.len() < width
            invariant
                slots@.len() <= width,
                forall|i: int| 0 <= i < slots@.len() ==> slots@[i] == 0u16,
            decreases width - slots@.len(),
        {
            slots.push(0);
        }
        History { slots }
    }

    pub fn len(&self) -> (n: usize)
        ensures
            n == self@.len(),
    {
        self.slots.len()
    }

    /// Ages the window by one tick: drops the oldest slot, appends `value`.
    pub fn push(&mut self, value: u16)
        ensures
            final(self)@ == shifted(old(self)@, value),
    {
        let n = self.slots.len();
        if n > 0 {
            let mut i: usize = 0;
            while i + 1 < n
                invariant
                    n == self.slots@.len(),
                    i < n,
                    forall|j: int| 0 <= j < i ==> self.slots@[j] == old(self)@[j + 1],
                    forall|j: int| i <= j < n ==> self.slots@[j] == old(self)@[j],
                decreases n - i,
            {
                let next = self.slots[i + 1];
                self.slots.set(i, next);
                i = i + 1;
            }
            self.slots.set(n - 1, value);
            proof {
                assert(self.slots@ =~= shifted(old(self)@, value));
            }
        }
    }

    /// The sample shown at a screen column: column 0 is the oldest retained
    /// sample, the last column the most recent. Out-of-range columns read as
    /// zero rather than failing.
    pub fn value_at(&self, col: usize) -> (v: u16)
        ensures
            v == if col < self@.len() {
                self@[col as int]
            } else {
                0u16
            },
    {
        if col < self.slots.len() {
            self.slots[col]
        } else {
            0
        }
    }
}

} // verus!
