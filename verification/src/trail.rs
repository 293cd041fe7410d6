//! The trail a body leaves behind it: a sliding window over the screen
//! positions it has passed through, oldest first.

use vstd::prelude::*;

verus! {

/// The largest number of positions a trail remembers.
pub const MAX_TRAIL_SIZE: usize = 1000;

/// The last `MAX_TRAIL_SIZE` entries of `history`, in their order; all of
/// `history` where it is shorter than that.
pub open spec fn window<T>(history: Seq<T>) -> Seq<T> {
    if history.len() <= MAX_TRAIL_SIZE {
        history
    } else {
        history.subrange(history.len() - MAX_TRAIL_SIZE, history.len() as int)
    }
}

/// What a trail remembers once every entry of `history` has been recorded
/// in an empty trail, first entry first.
pub open spec fn recorded<T>(history: Seq<T>) -> Seq<T>
    decreases history.len(),
{
    if history.len() == 0 {
        Seq::empty()
    } else {
        window(recorded(history.drop_last()).push(history.last()))
    }
}

/// A trail is a sliding window over what was recorded in it: however many
/// positions were recorded, it remembers the latest of them, never more than
/// `MAX_TRAIL_SIZE`, and once more than that were recorded its oldest entry
/// is the one recorded `MAX_TRAIL_SIZE` entries before the end.
pub proof fn lemma_trail_is_sliding_window<T>(history: Seq<T>)
    ensures
        recorded(history) == window(history),
        recorded(history).len() <= MAX_TRAIL_SIZE,
        history.len() > MAX_TRAIL_SIZE ==> recorded(history)[0] == history[history.len()
            - MAX_TRAIL_SIZE],
    decreases history.len(),
{
    if history.len() > 0 {
        let earlier = history.drop_last();
        lemma_trail_is_sliding_window(earlier);
        assert(earlier.push(history.last()) =~= history);
        assert(window(window(earlier).push(history.last())) =~= window(history));
    }
}

/// A bounded record of the positions of one body.
///
/// The positions are kept in a ring: once the trail is full, a new position
/// takes the slot of the oldest one, and nothing is moved.  The view of a
/// trail is the sequence of the positions it remembers, oldest first.
pub struct PlanetTrail<T> {
    slots: Vec<T>,
    oldest: usize,
}

impl<T> View for PlanetTrail<T> {
    type V = Seq<T>;

    closed spec fn view(&self) -> Seq<T> {
        self.slots@.subrange(self.oldest as int, self.slots@.len() as int)
            + self.slots@.subrange(0, self.oldest as int)
    }
}

impl<T> PlanetTrail<T> {
    /// The ring is sound: it holds no more than `MAX_TRAIL_SIZE` positions,
    /// and its oldest entry is where the next eviction expects it.
    pub closed spec fn wf(&self) -> bool {
        &&& self.slots@.len() <= MAX_TRAIL_SIZE
        &&& self.slots@.len() < MAX_TRAIL_SIZE ==> self.oldest == 0
        &&& self.slots@.len() == MAX_TRAIL_SIZE ==> self.oldest < MAX_TRAIL_SIZE
    }

    /// A sound trail never remembers more than `MAX_TRAIL_SIZE` positions.
    pub proof fn lemma_bounded(&self)
        requires
            self.wf(),
        ensures
            self@.len() <= MAX_TRAIL_SIZE,
    {
    }

    /// A trail that remembers nothing yet.
    pub fn new() -> (trail: Self)
        ensures
            trail.wf(),
            trail@ == Seq::<T>::empty(),
    {
        let trail = PlanetTrail { slots: Vec::new(), oldest: 0 };
        assert(trail@ =~= Seq::<T>::empty());
        trail
    }

    /// The number of positions the trail remembers.
    pub fn len(&self) -> (n: usize)
        requires
            self.wf(),
        ensures
            n == self@.len(),
            n <= MAX_TRAIL_SIZE,
    {
        self.slots.len()
    }

    /// Records `position` as the newest entry.  A full trail forgets its
    /// oldest entry to make room.
    pub fn add_position(&mut self, position: T)
        requires
            old(self).wf(),
        ensures
            final(self).wf(),
            final(self)@ == window(old(self)@.push(position)),
    {
        if self.slots.len() < MAX_TRAIL_SIZE {
            self.slots.push(position);
            assert(self@ =~= old(self)@.push(position));
        } else {
            let slot: usize = self.oldest;
            self.slots.set(slot, position);
            self.oldest = if slot + 1 == MAX_TRAIL_SIZE {
                0
            } else {
                slot + 1
            };
            assert(self@ =~= window(old(self)@.push(position)));
        }
    }

    /// The entry at `index`, counted from the oldest; `None` beyond the end.
    pub fn get(&self, index: usize) -> (entry: Option<&T>)
        requires
            self.wf(),
        ensures
            index < self@.len() ==> entry == Some(&self@[index as int]),
            index >= self@.len() ==> entry.is_none(),
    {
        let count: usize = self.slots.len();
        if index >= count {
            return None;
        }
        let room: usize = count - self.oldest;
        let slot: usize = if index < room {
            self.oldest + index
        } else {
            index - room
        };
        Some(&self.slots[slot])
    }
}

impl<T> Default for PlanetTrail<T> {
    /// A trail that remembers nothing yet.
    fn default() -> (trail: Self)
        ensures
            trail.wf(),
            trail@ == Seq::<T>::empty(),
    {
        PlanetTrail::new()
    }
}

impl<T: Copy> PlanetTrail<T> {
    /// The remembered positions as a list, oldest first, as a line strip is
    /// drawn from them.
    pub fn positions(&self) -> (list: Vec<T>)
        requires
            self.wf(),
        ensures
            list@ == self@,
    {
        let count: usize = self.slots.len();
        let mut list: Vec<T> = Vec::with_capacity(count);
        let mut slot: usize = self.oldest;
        while slot < count
            invariant
                self.oldest <= slot <= count,
                count == self.slots@.len(),
                list@ == self.slots@.subrange(self.oldest as int, slot as int),
            decreases count - slot,
        {
            list.push(self.slots[slot]);
            slot += 1;
            assert(list@ =~= self.slots@.subrange(self.oldest as int, slot as int));
        }
        let mut wrapped: usize = 0;
        while wrapped < self.oldest
            invariant
                wrapped <= self.oldest <= count,
                count == self.slots@.len(),
                list@ == self.slots@.subrange(self.oldest as int, count as int)
                    + self.slots@.subrange(0, wrapped as int),
            decreases self.oldest - wrapped,
        {
            list.push(self.slots[wrapped]);
            wrapped += 1;
            assert(list@ =~= self.slots@.subrange(self.oldest as int, count as int)
                + self.slots@.subrange(0, wrapped as int));
        }
        list
    }
}

} // verus!
