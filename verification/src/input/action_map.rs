//! Named action bindings (e.g. "jump" on Space or the left mouse button).

use vstd::prelude::*;

use super::button::{ButtonId, ButtonSet};
use winit::event::MouseButton;
use winit::keyboard::KeyCode;

use super::keyboard::KeyboardState;
use super::mouse::MouseState;

verus! {

/// A single physical input that can trigger an action.
#[derive(Debug, Clone, Copy, PartialEq, Eq, Hash)]
pub enum Binding {
    /// A keyboard key.
    Key(KeyCode),
    /// A mouse button.
    Mouse(MouseButton),
}

impl ButtonId for Binding {
    fn same(&self, other: &Self) -> (r: bool) {
        match (self, other) {
            (Binding::Key(a), Binding::Key(b)) => a.same(b),
            (Binding::Mouse(a), Binding::Mouse(b)) => a.same(b),
            _ => false,
        }
    }
}

/// Whether any binding in `bindings` is active, given the active keys and
/// mouse buttons.
pub open spec fn any_active(
    bindings: Set<Binding>,
    keys: Set<KeyCode>,
    buttons: Set<MouseButton>,
) -> bool {
    exists|b: Binding|
        #[trigger] bindings.contains(b) && match b {
            Binding::Key(k) => keys.contains(k),
            Binding::Mouse(m) => buttons.contains(m),
        }
}

/// The bindings of `action` in a map view; none when the action is unbound.
pub open spec fn bindings_of(map: Map<Seq<char>, Set<Binding>>, action: Seq<char>) -> Set<Binding> {
    if map.contains_key(action) {
        map[action]
    } else {
        Set::empty()
    }
}

/// Maps action names to one or more physical bindings.
pub struct ActionMap {
    entries: Vec<(String, ButtonSet<Binding>)>,
}

impl View for ActionMap {
    type V = Map<Seq<char>, Set<Binding>>;

    /// The bindings of each action, by action name.
    closed spec fn view(&self) -> Map<Seq<char>, Set<Binding>> {
        Map::new(
            |name: Seq<char>| exists|i: int| 0 <= i < self.entries@.len() && (#[trigger] self.entries@[i]).0@ == name,
            |name: Seq<char>| self.entries@[self.index_of(name)].1@,
        )
    }
}

impl ActionMap {
    /// Action names are distinct and every binding set is well formed.
    pub closed spec fn wf(&self) -> bool {
        &&& forall|i: int, j: int|
            0 <= i < self.entries@.len() && 0 <= j < self.entries@.len() && i != j
                ==> (#[trigger] self.entries@[i]).0@ != (#[trigger] self.entries@[j]).0@
        &&& forall|i: int| 0 <= i < self.entries@.len() ==> (#[trigger] self.entries@[i]).1.wf()
    }

    /// The position of the entry named `name`.
    closed spec fn index_of(&self, name: Seq<char>) -> int {
        choose|i: int| 0 <= i < self.entries@.len() && (#[trigger] self.entries@[i]).0@ == name
    }

    proof fn lemma_entry(&self, i: int)
        requires
            self.wf(),
            0 <= i < self.entries@.len(),
        ensures
            self@.contains_key(self.entries@[i].0@),
            self.index_of(self.entries@[i].0@) == i,
            self@[self.entries@[i].0@] == self.entries@[i].1@,
    {
        let name = self.entries@[i].0@;
        assert(self@.contains_key(name));
        let j = self.index_of(name);
        assert(self.entries@[j].0@ == name);
    }

    /// Create an empty action map.
    pub fn new() -> (m: Self)
        ensures
            m.wf(),
            m@ == Map::<Seq<char>, Set<Binding>>::empty(),
    {
        let m = ActionMap { entries: Vec::new() };
        assert(m@ =~= Map::<Seq<char>, Set<Binding>>::empty());
        m
    }

    fn find(&self, action: &str) -> (r: Option<usize>)
        requires
            self.wf(),
        ensures
            match r {
                Some(i) => i < self.entries@.len() && self.entries@[i as int].0@ == action@,
                None => !self@.contains_key(action@),
            },
    {
        let name = action.to_owned();
        let n = self.entries.len();
        for i in 0..n
            invariant
                n == self.entries@.len(),
                name@ == action@,
                forall|j: int| 0 <= j < i ==> self.entries@[j].0@ != action@,
        {
            if self.entries[i].0 == name {
                return Some(i);
            }
        }
        None
    }

    /// Bind a physical input to a named action, keeping its other bindings.
    pub fn bind(&mut self, action: &str, binding: Binding)
        requires
            old(self).wf(),
        ensures
            final(self).wf(),
            final(self)@ == old(self)@.insert(action@, bindings_of(old(self)@, action@).insert(binding)),
    {
        match self.find(action) {
            Some(i) => {
                proof {
                    old(self).lemma_entry(i as int);
                }
                let mut entry = (String::new(), ButtonSet::new());
                std::mem::swap(&mut entry, &mut self.entries[i]);
                let _ = entry.1.insert(binding);
                self.entries.set(i, entry);
                proof {
                    assert forall|a: int, b: int|
                        0 <= a < self.entries@.len() && 0 <= b < self.entries@.len() && a != b
                        implies (#[trigger] self.entries@[a]).0@ != (#[trigger] self.entries@[b]).0@ by {
                        assert(old(self).entries@[a].0@ != old(self).entries@[b].0@);
                    }
                    assert forall|name: Seq<char>| #[trigger] old(self)@.contains_key(name) && name != action@
                        implies self@.contains_key(name) && self@[name] == old(self)@[name] by {
                        let j = old(self).index_of(name);
                        assert(old(self).entries@[j].0@ == name);
                        assert(j != i);
                        self.lemma_entry(j);
                        old(self).lemma_entry(j);
                    }
                    assert forall|name: Seq<char>| #[trigger] self@.contains_key(name)
                        implies old(self)@.contains_key(name) by {
                        let j = self.index_of(name);
                        assert(self.entries@[j].0@ == name);
                        assert(old(self).entries@[j].0@ == name);
                    }
                    self.lemma_entry(i as int);
                    assert(self@ =~= old(self)@.insert(
                        action@,
                        bindings_of(old(self)@, action@).insert(binding),
                    ));
                }
            },
            None => {
                let mut set = ButtonSet::new();
                let _ = set.insert(binding);
                let ghost n = old(self).entries@.len() as int;
                self.entries.push((action.to_owned(), set));
                proof {
                    assert forall|name: Seq<char>| #[trigger] old(self)@.contains_key(name)
                        implies self@.contains_key(name) && self@[name] == old(self)@[name] by {
                        let j = old(self).index_of(name);
                        assert(old(self).entries@[j].0@ == name);
                        assert(self.entries@[j] == old(self).entries@[j]);
                        self.lemma_entry(j);
                        old(self).lemma_entry(j);
                    }
                    assert forall|name: Seq<char>| #[trigger] self@.contains_key(name) && name != action@
                        implies old(self)@.contains_key(name) by {
                        let j = self.index_of(name);
                        assert(self.entries@[j].0@ == name);
                        assert(j != n);
                        assert(old(self).entries@[j].0@ == name);
                    }
                    self.lemma_entry(n);
                    assert(set@ =~= Set::<Binding>::empty().insert(binding));
                    assert(self@ =~= old(self)@.insert(
                        action@,
                        bindings_of(old(self)@, action@).insert(binding),
                    ));
                }
            },
        }
    }

    /// Clear all bindings of an action.
    pub fn unbind_all(&mut self, action: &str)
        requires
            old(self).wf(),
        ensures
            final(self).wf(),
            final(self)@ == old(self)@.remove(action@),
    {
        match self.find(action) {
            Some(i) => {
                let ghost oe = old(self).entries@;
                let _ = self.entries.remove(i);
                proof {
                    assert(self.entries@ == oe.remove(i as int));
                    assert forall|a: int, b: int|
                        0 <= a < self.entries@.len() && 0 <= b < self.entries@.len() && a != b
                        implies (#[trigger] self.entries@[a]).0@ != (#[trigger] self.entries@[b]).0@ by {
                        let oa = if a < i { a } else { a + 1 };
                        let ob = if b < i { b } else { b + 1 };
                        assert(self.entries@[a] == oe[oa]);
                        assert(self.entries@[b] == oe[ob]);
                    }
                    assert forall|name: Seq<char>| #[trigger] old(self)@.contains_key(name) && name != action@
                        implies self@.contains_key(name) && self@[name] == old(self)@[name] by {
                        let j = old(self).index_of(name);
                        assert(oe[j].0@ == name);
                        assert(j != i);
                        let nj = if j < i { j } else { j - 1 };
                        assert(self.entries@[nj] == oe[j]);
                        self.lemma_entry(nj);
                        old(self).lemma_entry(j);
                    }
                    assert forall|name: Seq<char>| #[trigger] self@.contains_key(name)
                        implies old(self)@.contains_key(name) && name != action@ by {
                        let j = self.index_of(name);
                        assert(self.entries@[j].0@ == name);
                        let oj = if j < i { j } else { j + 1 };
                        assert(oe[oj].0@ == name);
                        assert(oj != i);
                    }
                    assert(self@ =~= old(self)@.remove(action@));
                }
            },
            None => {
                assert(self@ =~= old(self)@.remove(action@));
            },
        }
    }

    /// Whether any binding of the set at position `i` is active, with keys and
    /// buttons tested by `keys_pressed`/`buttons_pressed` (edges) or held.
    fn any_binding(
        &self,
        i: usize,
        keyboard: &KeyboardState,
        mouse: &MouseState,
        edges: bool,
    ) -> (r: bool)
        requires
            self.wf(),
            i < self.entries@.len(),
        ensures
            r == any_active(
                self.entries@[i as int].1@,
                if edges { keyboard.pressed_edges() } else { keyboard.held() },
                if edges { mouse.pressed_edges() } else { mouse.held() },
            ),
    {
        let set = &self.entries[i].1;
        let ghost keys = if edges { keyboard.pressed_edges() } else { keyboard.held() };
        let ghost buttons = if edges { mouse.pressed_edges() } else { mouse.held() };
        let ghost active = |b: Binding|
            match b {
                Binding::Key(k) => keys.contains(k),
                Binding::Mouse(m) => buttons.contains(m),
            };
        proof {
            set.lemma_elems();
        }
        let n = set.len();
        for j in 0..n
            invariant
                n == set.elems().len(),
                set@ == set.elems().to_set(),
                i < self.entries@.len(),
                *set == self.entries@[i as int].1,
                keys == (if edges { keyboard.pressed_edges() } else { keyboard.held() }),
                buttons == (if edges { mouse.pressed_edges() } else { mouse.held() }),
                active == (|b: Binding|
                    match b {
                        Binding::Key(k) => keys.contains(k),
                        Binding::Mouse(m) => buttons.contains(m),
                    }),
                forall|jj: int| 0 <= jj < j ==> !active(#[trigger] set.elems()[jj]),
        {
            let b = set.at(j);
            let hit = match b {
                Binding::Key(k) => if edges {
                    keyboard.just_pressed(k)
                } else {
                    keyboard.is_pressed(k)
                },
                Binding::Mouse(m) => if edges {
                    mouse.just_pressed(m)
                } else {
                    mouse.is_pressed(m)
                },
            };
            assert(hit == active(b));
            if hit {
                assert(set.elems().contains(b));
                assert(set@.contains(b));
                assert(self.entries@[i as int].1@.contains(b));
                return true;
            }
        }
        proof {
            assert forall|b: Binding| #[trigger] set@.contains(b) implies !active(b) by {
                let jj = choose|jj: int| 0 <= jj < set.elems().len() && set.elems()[jj] == b;
            }
        }
        false
    }

    /// Whether any binding of the action was pressed this frame.
    pub fn is_pressed(&self, action: &str, keyboard: &KeyboardState, mouse: &MouseState) -> (r: bool)
        requires
            self.wf(),
        ensures
            r == any_active(
                bindings_of(self@, action@),
                keyboard.pressed_edges(),
                mouse.pressed_edges(),
            ),
    {
        match self.find(action) {
            Some(i) => {
                proof {
                    self.lemma_entry(i as int);
                }
                self.any_binding(i, keyboard, mouse, true)
            },
            None => false,
        }
    }

    /// Whether any binding of the action is currently held down.
    pub fn is_held(&self, action: &str, keyboard: &KeyboardState, mouse: &MouseState) -> (r: bool)
        requires
            self.wf(),
        ensures
            r == any_active(bindings_of(self@, action@), keyboard.held(), mouse.held()),
    {
        match self.find(action) {
            Some(i) => {
                proof {
                    self.lemma_entry(i as int);
                }
                self.any_binding(i, keyboard, mouse, false)
            },
            None => false,
        }
    }
}

impl Default for ActionMap {
    /// An action map with no action.
    fn default() -> (m: Self)
        ensures
            m.wf(),
            m@ == Map::<Seq<char>, Set<Binding>>::empty(),
    {
        Self::new()
    }
}

} // verus!
