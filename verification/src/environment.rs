//! One scope of the environment: a mapping from variable names to values, both
//! stored as text.

use vstd::prelude::*;

verus! {

/// A name and the text bound to it.
pub type Binding = (Seq<char>, Seq<char>);

/// The mapping that a list of bindings denotes: a later binding of a name
/// replaces an earlier one.
pub open spec fn bindings(pairs: Seq<Binding>) -> Map<Seq<char>, Seq<char>>
    decreases pairs.len(),
{
    if pairs.len() == 0 {
        Map::empty()
    } else {
        bindings(pairs.drop_last()).insert(pairs.last().0, pairs.last().1)
    }
}

/// A scope frame.
#[derive(Debug)]
pub struct Frame {
    entries: Vec<(String, String)>,
}

impl View for Frame {
    type V = Map<Seq<char>, Seq<char>>;

    closed spec fn view(&self) -> Map<Seq<char>, Seq<char>> {
        bindings(self.pairs())
    }
}

/// A name that no later binding in the list repeats keeps the text of that
/// binding.
proof fn lemma_last_binding_wins(pairs: Seq<Binding>, i: int)
    requires
        0 <= i < pairs.len(),
        forall|j: int| i < j < pairs.len() ==> pairs[j].0 != pairs[i].0,
    ensures
        bindings(pairs).contains_key(pairs[i].0),
        bindings(pairs)[pairs[i].0] == pairs[i].1,
    decreases pairs.len(),
{
    if i < pairs.len() - 1 {
        lemma_last_binding_wins(pairs.drop_last(), i);
    }
}

/// A name that the list never binds is not in the mapping.
proof fn lemma_unbound(pairs: Seq<Binding>, name: Seq<char>)
    requires
        forall|j: int| 0 <= j < pairs.len() ==> pairs[j].0 != name,
    ensures
        !bindings(pairs).contains_key(name),
    decreases pairs.len(),
{
    if pairs.len() > 0 {
        lemma_unbound(pairs.drop_last(), name);
    }
}

/// Replacing the text of the last binding of a name is an insertion into the
/// mapping.
proof fn lemma_replace(pairs: Seq<Binding>, i: int, text: Seq<char>)
    requires
        0 <= i < pairs.len(),
        forall|j: int| i < j < pairs.len() ==> pairs[j].0 != pairs[i].0,
    ensures
        bindings(pairs.update(i, (pairs[i].0, text))) == bindings(pairs).insert(pairs[i].0, text),
    decreases pairs.len(),
{
    let updated = pairs.update(i, (pairs[i].0, text));
    if i == pairs.len() - 1 {
        assert(updated.drop_last() == pairs.drop_last());
        assert(bindings(updated) == bindings(pairs).insert(pairs[i].0, text));
    } else {
        lemma_replace(pairs.drop_last(), i, text);
        assert(updated.drop_last() == pairs.drop_last().update(i, (pairs[i].0, text)));
        assert(bindings(updated) == bindings(pairs).insert(pairs[i].0, text));
    }
}

impl Frame {
    /// The bindings in the order in which their names were first bound.
    pub closed spec fn pairs(&self) -> Seq<Binding> {
        Seq::new(self.entries@.len(), |i: int| (self.entries@[i].0@, self.entries@[i].1@))
    }

    /// A frame that binds nothing.
    pub fn new() -> (result: Self)
        ensures
            result@ == Map::<Seq<char>, Seq<char>>::empty(),
    {
        let result = Frame { entries: Vec::new() };
        assert(result.pairs() == Seq::<Binding>::empty());
        result
    }

    /// The position of the binding of `name`, if there is one.
    fn position(&self, name: &String) -> (result: Option<usize>)
        ensures
            match result {
                Some(i) => {
                    &&& i < self.pairs().len()
                    &&& self.pairs()[i as int].0 == name@
                    &&& forall|j: int| i < j < self.pairs().len() ==> self.pairs()[j].0 != name@
                },
                None => forall|j: int| 0 <= j < self.pairs().len() ==> self.pairs()[j].0 != name@,
            },
    {
        let mut i: usize = self.entries.len();
        while i > 0
            invariant
                i <= self.entries.len(),
                self.pairs().len() == self.entries.len(),
                forall|j: int| i <= j < self.pairs().len() ==> self.pairs()[j].0 != name@,
            decreases i,
        {
            i -= 1;
            if self.entries[i].0 == *name {
                return Some(i);
            }
        }
        None
    }

    /// The text bound to `name`, if any.
    pub fn get(&self, name: &String) -> (result: Option<&String>)
        ensures
            match result {
                Some(text) => self@.contains_key(name@) && text@ == self@[name@],
                None => !self@.contains_key(name@),
            },
    {
        match self.position(name) {
            Some(i) => {
                proof {
                    lemma_last_binding_wins(self.pairs(), i as int);
                }
                Some(&self.entries[i].1)
            },
            None => {
                proof {
                    lemma_unbound(self.pairs(), name@);
                }
                None
            },
        }
    }

    /// Whether `name` is bound.
    pub fn contains_key(&self, name: &String) -> (result: bool)
        ensures
            result == self@.contains_key(name@),
    {
        self.get(name).is_some()
    }

    /// Binds `name` to `text`, replacing an earlier binding of the same name.
    pub fn insert(&mut self, name: String, text: String)
        ensures
            final(self)@ == old(self)@.insert(name@, text@),
    {
        let ghost before = self.pairs();
        match self.position(&name) {
            Some(i) => {
                self.entries.set(i, (name, text));
                proof {
                    lemma_replace(before, i as int, text@);
                    assert(self.pairs() == before.update(i as int, (before[i as int].0, text@)));
                }
            },
            None => {
                self.entries.push((name, text));
                proof {
                    assert(self.pairs().drop_last() == before);
                }
            },
        }
    }

    /// Copies into this frame every binding of `other`; where both bind a name,
    /// the text of `other` stays.
    pub fn merge(&mut self, other: &Frame)
        ensures
            final(self)@ == old(self)@.union_prefer_right(other@),
    {
        let mut i: usize = 0;
        assert(other.pairs().take(0) == Seq::<Binding>::empty());
        assert(self@ == old(self)@.union_prefer_right(bindings(other.pairs().take(0))));
        while i < other.entries.len()
            invariant
                i <= other.entries.len(),
                other.pairs().len() == other.entries.len(),
                self@ == old(self)@.union_prefer_right(bindings(other.pairs().take(i as int))),
            decreases other.entries.len() - i,
        {
            let name = other.entries[i].0.clone();
            let text = other.entries[i].1.clone();
            proof {
                let done = other.pairs().take(i as int);
                let next = other.pairs().take(i + 1);
                assert(next.drop_last() == done);
                assert(next.last() == (name@, text@));
                assert(old(self)@.union_prefer_right(bindings(done)).insert(name@, text@) == old(
                    self,
                )@.union_prefer_right(bindings(next)));
            }
            self.insert(name, text);
            i += 1;
        }
        assert(other.pairs().take(i as int) == other.pairs());
    }
}

impl Clone for Frame {
    fn clone(&self) -> (result: Self)
        ensures
            result@ == self@,
    {
        let mut entries: Vec<(String, String)> = Vec::new();
        let mut i: usize = 0;
        while i < self.entries.len()
            invariant
                i <= self.entries.len(),
                entries.len() == i,
                forall|j: int|
                    0 <= j < i ==> entries@[j].0@ == self.entries@[j].0@ && entries@[j].1@
                        == self.entries@[j].1@,
            decreases self.entries.len() - i,
        {
            entries.push((self.entries[i].0.clone(), self.entries[i].1.clone()));
            i += 1;
        }
        let result = Frame { entries };
        assert(result.pairs() == self.pairs());
        result
    }
}

} // verus!
