use vstd::prelude::*;

verus! {

/// A resizable sequence of blocks, owned by one engine and reused between runs.
pub struct SpaceHandler<T> {
    pub back: Vec<T>,
}

impl<T> View for SpaceHandler<T> {
    type V = Seq<T>;

    open spec fn view(&self) -> Seq<T> {
        self.back@
    }
}

impl<T: Copy> SpaceHandler<T> {
    /// A buffer of `len` slots, each holding `fill`.
    pub fn allocate(len: usize, fill: T) -> (r: SpaceHandler<T>)
        ensures
            r@ == Seq::new(len as nat, |_i: int| fill),
    {
        let mut back: Vec<T> = Vec::with_capacity(len);
        let mut i: usize = 0;
        while i < len
            invariant
                i <= len,
                back@ == Seq::new(i as nat, |_i: int| fill),
            decreases len - i,
        {
            back.push(fill);
            i = i + 1;
            assert(back@ =~= Seq::new(i as nat, |_i: int| fill));
        }
        SpaceHandler { back }
    }

    /// Grows or shrinks the buffer to exactly `len` slots. Slots below both
    /// the old and the new length keep their content; new slots hold `fill`.
    pub fn resize(&mut self, len: usize, fill: T)
        ensures
            final(self)@.len() == len,
            forall|i: int|
                0 <= i < len && i < old(self)@.len() ==> #[trigger] final(self)@[i] == old(self)@[i],
            forall|i: int| old(self)@.len() <= i < len ==> #[trigger] final(self)@[i] == fill,
    {
        self.back.truncate(len);
        let ghost kept = self.back@;
        while self.back.len() < len
            invariant
                kept.len() <= self.back@.len() <= len,
                kept.len() == if len <= old(self)@.len() { len as nat } else { old(self)@.len() },
                self.back@.subrange(0, kept.len() as int) == kept,
                forall|i: int| 0 <= i < kept.len() ==> #[trigger] kept[i] == old(self)@[i],
                forall|i: int| kept.len() <= i < self.back@.len() ==> #[trigger] self.back@[i] == fill,
            decreases len - self.back@.len(),
        {
            self.back.push(fill);
        }
        assert forall|i: int| 0 <= i < len && i < old(self)@.len() implies #[trigger] self@[i] == old(self)@[i] by {
            assert(self.back@.subrange(0, kept.len() as int)[i] == kept[i]);
        }
    }
}

impl<T> SpaceHandler<T> {
    /// Adds `item` after the last slot.
    pub fn insert(&mut self, item: T)
        ensures
            final(self)@ == old(self)@.push(item),
    {
        self.back.push(item)
    }

    /// The number of slots.
    pub fn len(&self) -> (r: usize)
        ensures
            r == self@.len(),
    {
        self.back.len()
    }

    /// The item in slot `key`.
    pub fn index(&self, key: usize) -> (r: &T)
        requires
            key < self@.len(),
        ensures
            *r == self@[key as int],
    {
        &self.back[key]
    }

    /// Replaces the item in slot `key`.
    pub fn set(&mut self, key: usize, item: T)
        requires
            key < old(self)@.len(),
        ensures
            final(self)@ == old(self)@.update(key as int, item),
    {
        self.back.set(key, item);
    }
}

} // verus!
