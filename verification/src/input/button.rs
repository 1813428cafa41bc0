//! Press/release edge tracking shared by every kind of button.

use vstd::prelude::*;

verus! {

/// A button identity that can be compared at run time.
pub trait ButtonId: Copy + Sized {
    /// Whether two buttons are the same.
    fn same(&self, other: &Self) -> (r: bool)
        ensures
            r == (*self == *other),
    ;
}

/// A set of buttons, without repetition.
pub struct ButtonSet<B> {
    items: Vec<B>,
}

impl<B: ButtonId> View for ButtonSet<B> {
    type V = Set<B>;

    closed spec fn view(&self) -> Set<B> {
        self.items@.to_set()
    }
}

impl<B: ButtonId> ButtonSet<B> {
    /// No button occurs twice.
    pub closed spec fn wf(&self) -> bool {
        self.items@.no_duplicates()
    }

    /// The elements, in insertion order.
    pub closed spec fn elems(&self) -> Seq<B> {
        self.items@
    }

    /// The view is the set of the elements.
    pub proof fn lemma_elems(&self)
        ensures
            self@ == self.elems().to_set(),
    {
    }

    /// The number of elements.
    pub fn len(&self) -> (r: usize)
        ensures
            r == self.elems().len(),
    {
        self.items.len()
    }

    /// The element at position `i`.
    pub fn at(&self, i: usize) -> (r: B)
        requires
            i < self.elems().len(),
        ensures
            r == self.elems()[i as int],
    {
        self.items[i]
    }

    /// The empty set.
    pub fn new() -> (s: Self)
        ensures
            s.wf(),
            s@ == Set::<B>::empty(),
    {
        let s = ButtonSet { items: Vec::new() };
        assert(s@ =~= Set::<B>::empty());
        s
    }

    fn position(&self, b: &B) -> (r: Option<usize>)
        ensures
            match r {
                Some(i) => i < self.items@.len() && self.items@[i as int] == *b,
                None => !self@.contains(*b),
            },
    {
        let n = self.items.len();
        for i in 0..n
            invariant
                n == self.items@.len(),
                forall|j: int| 0 <= j < i ==> self.items@[j] != *b,
        {
            if self.items[i].same(b) {
                return Some(i);
            }
        }
        None
    }

    /// Whether `b` is in the set.
    pub fn contains(&self, b: &B) -> (r: bool)
        ensures
            r == self@.contains(*b),
    {
        match self.position(b) {
            Some(i) => {
                assert(self.items@.contains(self.items@[i as int]));
                true
            },
            None => false,
        }
    }

    /// Add `b`; `true` when it was not in the set before.
    pub fn insert(&mut self, b: B) -> (r: bool)
        requires
            old(self).wf(),
        ensures
            final(self).wf(),
            final(self)@ == old(self)@.insert(b),
            r == !old(self)@.contains(b),
    {
        match self.position(&b) {
            Some(i) => {
                assert(old(self).items@.contains(old(self).items@[i as int]));
                assert(self@ =~= old(self)@.insert(b));
                false
            },
            None => {
                self.items.push(b);
                let ghost n = old(self).items@.len();
                assert(self.items@ == old(self).items@.push(b));
                assert(self@ =~= old(self)@.insert(b)) by {
                    assert(self.items@[n as int] == b);
                    assert forall|c: B| #[trigger] self@.contains(c) implies old(self)@.insert(b).contains(c) by {
                        let x = choose|x: int| 0 <= x < self.items@.len() && self.items@[x] == c;
                        if x < n {
                            assert(old(self).items@[x] == c);
                        }
                    }
                    assert forall|c: B| #[trigger] old(self)@.contains(c) implies self@.contains(c) by {
                        let x = choose|x: int| 0 <= x < old(self).items@.len() && old(self).items@[x] == c;
                        assert(self.items@[x] == c);
                    }
                }
                true
            },
        }
    }

    /// Remove `b`; `true` when it was in the set before.
    pub fn remove(&mut self, b: &B) -> (r: bool)
        requires
            old(self).wf(),
        ensures
            final(self).wf(),
            final(self)@ == old(self)@.remove(*b),
            r == old(self)@.contains(*b),
    {
        match self.position(b) {
            Some(i) => {
                let ghost old_items = self.items@;
                let _ = self.items.swap_remove(i);
                let ghost last = old_items.len() - 1;
                assert(old_items.contains(old_items[i as int]));
                assert(self.items@ == old_items.update(i as int, old_items[last]).drop_last());
                assert(self.items@.no_duplicates()) by {
                    assert forall|x: int, y: int|
                        0 <= x < self.items@.len() && 0 <= y < self.items@.len() && x != y implies
                        self.items@[x] != self.items@[y] by {
                        let ox = if x == i { last } else { x };
                        let oy = if y == i { last } else { y };
                        assert(self.items@[x] == old_items[ox]);
                        assert(self.items@[y] == old_items[oy]);
                    }
                }
                assert(self@ =~= old(self)@.remove(*b)) by {
                    assert forall|c: B| #[trigger] self@.contains(c) implies old(self)@.contains(c)
                        && c != *b by {
                        let x = choose|x: int| 0 <= x < self.items@.len() && self.items@[x] == c;
                        let ox = if x == i { last } else { x };
                        assert(self.items@[x] == old_items[ox]);
                        assert(ox != i);
                    }
                    assert forall|c: B| #[trigger] old(self)@.contains(c) && c != *b implies self@.contains(
                        c,
                    ) by {
                        let x = choose|x: int| 0 <= x < old_items.len() && old_items[x] == c;
                        assert(x != i);
                        let nx = if x == last { i as int } else { x };
                        assert(self.items@[nx] == c);
                    }
                }
                true
            },
            None => {
                assert(self@ =~= old(self)@.remove(*b));
                false
            },
        }
    }

    /// Empty the set.
    pub fn clear(&mut self)
        ensures
            final(self).wf(),
            final(self)@ == Set::<B>::empty(),
    {
        self.items.clear();
        assert(self@ =~= Set::<B>::empty());
    }
}

/// The held, just-pressed and just-released buttons of one input device.
pub struct ButtonState<B> {
    pressed: ButtonSet<B>,
    just_pressed: ButtonSet<B>,
    just_released: ButtonSet<B>,
}

impl<B: ButtonId> ButtonState<B> {
    /// The three sets are well formed.
    pub closed spec fn wf(&self) -> bool {
        &&& self.pressed.wf()
        &&& self.just_pressed.wf()
        &&& self.just_released.wf()
    }

    /// Buttons currently held down.
    pub closed spec fn held(&self) -> Set<B> {
        self.pressed@
    }

    /// Buttons pressed since the frame began.
    pub closed spec fn pressed_edges(&self) -> Set<B> {
        self.just_pressed@
    }

    /// Buttons released since the frame began.
    pub closed spec fn released_edges(&self) -> Set<B> {
        self.just_released@
    }

    /// Nothing held, nothing pressed or released.
    pub fn new() -> (s: Self)
        ensures
            s.wf(),
            s.held() == Set::<B>::empty(),
            s.pressed_edges() == Set::<B>::empty(),
            s.released_edges() == Set::<B>::empty(),
    {
        ButtonState { pressed: ButtonSet::new(), just_pressed: ButtonSet::new(), just_released: ButtonSet::new() }
    }

    /// Start a new frame: the press and release edges are cleared, held
    /// buttons stay held.
    pub fn begin_frame(&mut self)
        requires
            old(self).wf(),
        ensures
            final(self).wf(),
            final(self).held() == old(self).held(),
            final(self).pressed_edges() == Set::<B>::empty(),
            final(self).released_edges() == Set::<B>::empty(),
    {
        self.just_pressed.clear();
        self.just_released.clear();
    }

    /// Record a press (`is_pressed`) or a release of `b`.
    ///
    /// A press of a button that is not held makes it held and records a press
    /// edge; a release of a held button makes it no longer held and records a
    /// release edge. A repeated press or release changes nothing.
    pub fn process(&mut self, b: B, is_pressed: bool)
        requires
            old(self).wf(),
        ensures
            final(self).wf(),
            is_pressed ==> {
                &&& final(self).held() == old(self).held().insert(b)
                &&& final(self).pressed_edges() == (if old(self).held().contains(b) {
                    old(self).pressed_edges()
                } else {
                    old(self).pressed_edges().insert(b)
                })
                &&& final(self).released_edges() == old(self).released_edges()
            },
            !is_pressed ==> {
                &&& final(self).held() == old(self).held().remove(b)
                &&& final(self).released_edges() == (if old(self).held().contains(b) {
                    old(self).released_edges().insert(b)
                } else {
                    old(self).released_edges()
                })
                &&& final(self).pressed_edges() == old(self).pressed_edges()
            },
    {
        if is_pressed {
            if self.pressed.insert(b) {
                self.just_pressed.insert(b);
            }
        } else {
            if self.pressed.remove(&b) {
                self.just_released.insert(b);
            }
        }
    }

    /// Whether `b` is held down.
    pub fn is_pressed(&self, b: &B) -> (r: bool)
        ensures
            r == self.held().contains(*b),
    {
        self.pressed.contains(b)
    }

    /// Whether `b` was pressed this frame.
    pub fn just_pressed(&self, b: &B) -> (r: bool)
        ensures
            r == self.pressed_edges().contains(*b),
    {
        self.just_pressed.contains(b)
    }

    /// Whether `b` was released this frame.
    pub fn just_released(&self, b: &B) -> (r: bool)
        ensures
            r == self.released_edges().contains(*b),
    {
        self.just_released.contains(b)
    }
}

} // verus!
