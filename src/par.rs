use vstd::prelude::*;

verus! {

/// Hands results out in submission order, whatever order they complete in.
/// `slots[k]` holds the result for submission `next + k` once it is done.
pub struct ReorderBuffer<T> {
    pub slots: Vec<Option<T>>,
    pub next: usize,
    pub window: usize,
}

impl<T> ReorderBuffer<T> {
    pub open spec fn wf(&self) -> bool {
        &&& 0 < self.window
        &&& self.slots@.len() <= self.window
        &&& self.next + self.slots@.len() <= usize::MAX
    }

    /// The index that the next submission gets.
    pub open spec fn submitted(&self) -> int {
        self.next + self.slots@.len()
    }

    /// A buffer that lets at most `window` submissions be outstanding.
    pub fn new(window: usize) -> (r: ReorderBuffer<T>)
        requires
            window > 0,
        ensures
            r.wf(),
            r.slots@.len() == 0,
            r.next == 0,
            r.window == window,
    {
        ReorderBuffer { slots: Vec::new(), next: 0, window }
    }

    /// Whether another submission fits in the window.
    pub fn has_room(&self) -> (r: bool)
        requires
            self.wf(),
        ensures
            r == (self.slots@.len() < self.window && self.submitted() < usize::MAX),
    {
        self.slots.len() < self.window && self.slots.len() < usize::MAX - self.next
    }

    /// Opens a slot for the next submission and returns its index.
    pub fn submit(&mut self) -> (idx: usize)
        requires
            old(self).wf(),
            old(self).slots@.len() < old(self).window,
            old(self).submitted() < usize::MAX,
        ensures
            final(self).wf(),
            idx == old(self).submitted(),
            final(self).next == old(self).next,
            final(self).window == old(self).window,
            final(self).slots@ == old(self).slots@.push(None),
    {
        let idx = self.next + self.slots.len();
        self.slots.push(None);
        idx
    }

    /// Records the result of submission `idx`; no other slot changes.
    pub fn complete(&mut self, idx: usize, item: T)
        requires
            old(self).wf(),
            old(self).next <= idx < old(self).submitted(),
        ensures
            final(self).wf(),
            final(self).next == old(self).next,
            final(self).window == old(self).window,
            final(self).slots@ == old(self).slots@.update(idx - old(self).next, Some(item)),
    {
        let k = idx - self.next;
        self.slots.set(k, Some(item));
    }

    /// The result of the oldest outstanding submission, if it is done;
    /// `None` while it is not, even where later ones are.
    pub fn pop_ready(&mut self) -> (r: Option<T>)
        requires
            old(self).wf(),
        ensures
            final(self).wf(),
            final(self).window == old(self).window,
            old(self).slots@.len() > 0 && old(self).slots@[0] is Some ==> {
                &&& r == old(self).slots@[0]
                &&& final(self).next == old(self).next + 1
                &&& final(self).slots@ == old(self).slots@.drop_first()
            },
            !(old(self).slots@.len() > 0 && old(self).slots@[0] is Some) ==> {
                &&& r is None
                &&& final(self).next == old(self).next
                &&& final(self).slots@ == old(self).slots@
            },
    {
        if self.slots.len() == 0 || self.slots[0].is_none() {
            return None;
        }
        let item = self.slots.remove(0);
        self.next = self.next + 1;
        assert(self.slots@ =~= old(self).slots@.drop_first());
        item
    }

    /// Submissions made and not yet handed out.
    pub fn in_flight(&self) -> (r: usize)
        ensures
            r == self.slots@.len(),
    {
        self.slots.len()
    }
}

} // verus!
