//! Damage history of a surface.

use vstd::prelude::*;

use crate::geometry::Rect;

verus! {

/// Number of frames of damage history kept for each surface.
pub const MAX_DAMAGE_AGE: usize = 2;

/// Every rectangle of the sequence is valid.
pub open spec fn all_valid(s: Seq<Rect>) -> bool {
    forall|i: int| 0 <= i < s.len() ==> (#[trigger] s[i]).valid()
}

/// Every rectangle of the sequence is the empty rectangle at the origin.
pub open spec fn all_zero(s: Seq<Rect>) -> bool {
    forall|i: int| 0 <= i < s.len() ==> #[trigger] s[i] == Rect::zero()
}

/// The damage rectangles to redraw with for a frame whose buffer is `age` frames old: the
/// newest `age` entries of the history where the history reaches that far back, else the whole
/// surface.
pub open spec fn damage_for_age(history: Seq<Rect>, age: int, full: Rect) -> Seq<Rect> {
    if 1 <= age <= MAX_DAMAGE_AGE {
        history.take(age)
    } else {
        seq![full]
    }
}

/// The history after one import: each entry one slot older, the oldest dropped, and the
/// newest slot empty.
pub open spec fn rotated(history: Seq<Rect>) -> Seq<Rect> {
    seq![Rect::zero()].add(history.take(MAX_DAMAGE_AGE - 1))
}

/// The history after `n` imports without damage in between.
pub open spec fn rotated_times(history: Seq<Rect>, n: nat) -> Seq<Rect>
    decreases n,
{
    if n == 0 {
        history
    } else {
        rotated(rotated_times(history, (n - 1) as nat))
    }
}

/// After as many imports without damage as the history has slots, or more, every slot of the
/// history is empty, whatever it held before.
pub proof fn lemma_clear_empties_history(history: Seq<Rect>, n: nat)
    requires
        history.len() == MAX_DAMAGE_AGE,
        n >= MAX_DAMAGE_AGE,
    ensures
        rotated_times(history, n).len() == MAX_DAMAGE_AGE,
        all_zero(rotated_times(history, n)),
    decreases n,
{
    if n == MAX_DAMAGE_AGE {
        let h1 = rotated_times(history, 1);
        let h2 = rotated_times(history, 2);
        assert(rotated_times(history, 0) == history);
        assert(h1 == rotated(history));
        assert(h2 == rotated(h1));
        assert(h1.len() == MAX_DAMAGE_AGE);
        assert(h1[0] == Rect::zero());
        assert(h2[0] == Rect::zero());
        assert(h2[1] == h1[0]);
    } else {
        let prev = rotated_times(history, (n - 1) as nat);
        lemma_clear_empties_history(history, (n - 1) as nat);
        let next = rotated(prev);
        assert(next.len() == MAX_DAMAGE_AGE);
        assert forall|i: int| 0 <= i < next.len() implies #[trigger] next[i] == Rect::zero() by {
            if i > 0 {
                assert(next[i] == prev[i - 1]);
            }
        }
    }
}

/// Damage of a surface: the history in output pixels, newest first, and the rectangles in
/// buffer coordinates that have not been imported yet.
#[derive(Debug)]
pub struct Damage {
    physical: Vec<Rect>,
    buffer: Vec<Rect>,
}

impl Damage {
    /// The history holds one slot per frame of age, and every rectangle is valid.
    pub open spec fn wf(&self) -> bool {
        &&& self.physical_view().len() == MAX_DAMAGE_AGE
        &&& all_valid(self.physical_view())
        &&& all_valid(self.buffer_view())
    }

    /// Damage history in output pixels, newest first.
    pub closed spec fn physical_view(&self) -> Seq<Rect> {
        self.physical@
    }

    /// Buffer damage since the last import.
    pub closed spec fn buffer_view(&self) -> Seq<Rect> {
        self.buffer@
    }

    /// No damage at all.
    pub fn new() -> (r: Damage)
        ensures
            r.wf(),
            r.physical_view() == seq![Rect::zero(), Rect::zero()],
            r.buffer_view() == Seq::<Rect>::empty(),
    {
        let mut physical: Vec<Rect> = Vec::new();
        physical.push(Rect::empty());
        physical.push(Rect::empty());
        let r = Damage { physical, buffer: Vec::new() };
        assert(r.physical@ =~= seq![Rect::zero(), Rect::zero()]);
        r
    }

    /// Record damage that arrived since the last import: `buffer` in buffer coordinates,
    /// `physical` in output pixels, merged into the newest slot of the history.
    pub fn add(&mut self, buffer: Rect, physical: Rect)
        requires
            old(self).wf(),
            buffer.valid(),
            physical.valid(),
        ensures
            final(self).wf(),
            final(self).buffer_view() == old(self).buffer_view().push(buffer),
            final(self).physical_view() == old(self).physical_view().update(
                0,
                old(self).physical_view()[0].union(physical),
            ),
    {
        let merged = self.physical[0].merge(&physical);
        self.physical.set(0, merged);
        self.buffer.push(buffer);
        assert forall|i: int| 0 <= i < self.buffer@.len() implies (#[trigger] self.buffer@[i]).valid() by {
            if i < old(self).buffer@.len() {
                assert(self.buffer@[i] == old(self).buffer@[i]);
            }
        }
    }

    /// Close the damage of the frame that was just imported.
    ///
    /// The history moves back by one slot, its oldest entry dropped and its newest slot empty,
    /// and the buffer damage is cleared. Call it once per import, else the history no longer
    /// matches the buffer age.
    pub fn clear(&mut self)
        requires
            old(self).wf(),
        ensures
            final(self).wf(),
            final(self).physical_view() == rotated(old(self).physical_view()),
            final(self).physical_view()[0] == Rect::zero(),
            final(self).buffer_view() == Seq::<Rect>::empty(),
    {
        self.physical.insert(0, Rect::empty());
        self.physical.pop();
        self.buffer.clear();
        assert(self.physical@ =~= seq![Rect::zero()].add(old(self).physical@.take(MAX_DAMAGE_AGE - 1)));
        assert forall|i: int| 0 <= i < self.physical@.len() implies (#[trigger] self.physical@[i]).valid() by {
            if i > 0 {
                assert(self.physical@[i] == old(self).physical@[i - 1]);
            }
        }
    }

    /// Buffer damage since the last import.
    pub fn buffer(&self) -> (r: &[Rect])
        ensures
            r@ == self.buffer_view(),
    {
        self.buffer.as_slice()
    }

    /// Damage history in output pixels, newest first.
    pub fn physical(&self) -> (r: &[Rect])
        ensures
            r@ == self.physical_view(),
    {
        self.physical.as_slice()
    }

    /// Whether there has been damage since the last import.
    pub fn damaged(&self) -> (r: bool)
        ensures
            r == (self.buffer_view().len() > 0),
    {
        !self.buffer.is_empty()
    }
}

/// The damage rectangles to redraw with for a frame whose buffer is `age` frames old.
///
/// With an age between one and [`MAX_DAMAGE_AGE`] these are the newest `age` entries of the
/// history; an age of zero (unknown) or beyond the history falls back to `full`, the whole
/// surface.
pub fn damage_for_buffer_age(history: &[Rect], age: u8, full: Rect) -> (r: Vec<Rect>)
    requires
        history@.len() == MAX_DAMAGE_AGE,
    ensures
        r@ == damage_for_age(history@, age as int, full),
{
    let mut r: Vec<Rect> = Vec::new();
    if 1 <= age && (age as usize) <= MAX_DAMAGE_AGE {
        let n = age as usize;
        let mut i: usize = 0;
        while i < n
            invariant
                n <= history@.len(),
                i <= n,
                r@ == history@.take(i as int),
            decreases n - i,
        {
            r.push(history[i]);
            assert(history@.take(i as int + 1) =~= history@.take(i as int).push(history@[i as int]));
            i += 1;
        }
    } else {
        r.push(full);
        assert(r@ =~= seq![full]);
    }
    r
}

/// Whether a texture has something to redraw: some rectangle of the damage has an area or
/// lies away from the origin. A draw with only empty damage is skipped.
pub fn has_damage(damage: &[Rect]) -> (r: bool)
    ensures
        r == !all_zero(damage@),
{
    let mut i: usize = 0;
    while i < damage.len()
        invariant
            i <= damage@.len(),
            all_zero(damage@.take(i as int)),
        decreases damage@.len() - i,
    {
        if damage[i] != Rect::empty() {
            return true;
        }
        assert(damage@.take(i as int + 1) =~= damage@.take(i as int).push(damage@[i as int]));
        i += 1;
    }
    assert(damage@.take(i as int) =~= damage@);
    false
}

} // verus!
