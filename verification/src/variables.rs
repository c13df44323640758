//! The variables of a shell session.

use vstd::prelude::*;
use vstd::string::*;

verus! {

/// What `store` holds once `value` was assigned to `name`: the new value
/// takes the place of an earlier one. A variable's name is not empty, so an
/// empty `name` names no variable and leaves `store` as it is.
pub open spec fn assigned(
    store: Map<Seq<char>, Seq<char>>,
    name: Seq<char>,
    value: Seq<char>,
) -> Map<Seq<char>, Seq<char>> {
    if name.len() == 0 {
        store
    } else {
        store.insert(name, value)
    }
}

/// An assignment takes the place of an earlier one to the same name: of two
/// in a row only the second is seen.
pub proof fn lemma_assigned_overwrites(
    store: Map<Seq<char>, Seq<char>>,
    name: Seq<char>,
    first: Seq<char>,
    second: Seq<char>,
)
    ensures
        assigned(assigned(store, name, first), name, second) == assigned(store, name, second),
{
}

/// After an assignment the name holds the value, also the empty value, and
/// every other name is as it was.
pub proof fn lemma_assigned_reads_back(
    store: Map<Seq<char>, Seq<char>>,
    name: Seq<char>,
    value: Seq<char>,
)
    requires
        name.len() > 0,
    ensures
        assigned(store, name, value).contains_key(name),
        assigned(store, name, value)[name] == value,
        forall|other: Seq<char>|
            other != name ==> assigned(store, name, value).contains_key(other)
                == store.contains_key(other),
        forall|other: Seq<char>|
            other != name && store.contains_key(other) ==> assigned(store, name, value)[other]
                == store[other],
{
}

/// The variables of one session: each name that is set, with its value.
/// A name that is absent is unset, which is not the same as set to the empty
/// text.
pub struct VariableStore {
    entries: Vec<(String, String)>,
}

spec fn holds(entries: Seq<(String, String)>, name: Seq<char>) -> bool {
    exists|i: int| 0 <= i < entries.len() && #[trigger] entries[i].0@ == name
}

spec fn position(entries: Seq<(String, String)>, name: Seq<char>) -> int {
    choose|i: int| 0 <= i < entries.len() && #[trigger] entries[i].0@ == name
}

spec fn contents(entries: Seq<(String, String)>) -> Map<Seq<char>, Seq<char>> {
    Map::new(
        |name: Seq<char>| holds(entries, name),
        |name: Seq<char>| entries[position(entries, name)].1@,
    )
}

spec fn distinct_names(entries: Seq<(String, String)>) -> bool {
    forall|i: int, j: int|
        0 <= i < j < entries.len() ==> #[trigger] entries[i].0@ != #[trigger] entries[j].0@
}

spec fn named(entries: Seq<(String, String)>) -> bool {
    forall|i: int| 0 <= i < entries.len() ==> (#[trigger] entries[i].0@).len() > 0
}

impl View for VariableStore {
    type V = Map<Seq<char>, Seq<char>>;

    /// The value of each variable that is set, by its name.
    closed spec fn view(&self) -> Map<Seq<char>, Seq<char>> {
        contents(self.entries@)
    }
}

impl VariableStore {
    #[verifier::type_invariant]
    spec fn well_formed(&self) -> bool {
        named(self.entries@) && distinct_names(self.entries@)
    }

    /// A store in which no variable is set.
    pub fn new() -> (store: Self)
        ensures
            store@ == Map::<Seq<char>, Seq<char>>::empty(),
    {
        VariableStore { entries: Vec::new() }
    }

    /// The value of the variable `name`, if it is set.
    pub fn get(&self, name: &str) -> (value: Option<&String>)
        ensures
            match value {
                Some(text) => self@.contains_key(name@) && text@ == self@[name@],
                None => !self@.contains_key(name@),
            },
            name@.len() == 0 ==> value is None,
    {
        proof {
            use_type_invariant(self);
        }
        let key = String::from_str(name);
        let mut i: usize = 0;
        while i < self.entries.len()
            invariant
                i <= self.entries.len(),
                key@ == name@,
                named(self.entries@),
                distinct_names(self.entries@),
                forall|k: int| 0 <= k < i ==> (#[trigger] self.entries@[k].0@) != name@,
            decreases self.entries.len() - i,
        {
            if self.entries[i].0 == key {
                return Some(&self.entries[i].1);
            }
            i = i + 1;
        }
        None
    }

    /// Assigns `value` to the variable `name`, in place of the value it had.
    pub fn set(&mut self, name: &str, value: &str)
        ensures
            final(self)@ == assigned(old(self)@, name@, value@),
    {
        proof {
            use_type_invariant(&*self);
        }
        if name.unicode_len() > 0 {
            let mut entries: Vec<(String, String)> = Vec::new();
            std::mem::swap(&mut entries, &mut self.entries);
            put(&mut entries, String::from_str(name), String::from_str(value));
            self.entries = entries;
        }
    }
}

fn put(entries: &mut Vec<(String, String)>, name: String, value: String)
    requires
        name@.len() > 0,
        named(old(entries)@),
        distinct_names(old(entries)@),
    ensures
        named(final(entries)@),
        distinct_names(final(entries)@),
        contents(final(entries)@) == contents(old(entries)@).insert(name@, value@),
{
    let ghost before = entries@;
    let ghost key = name@;
    let ghost text = value@;
    let mut i: usize = 0;
    while i < entries.len()
        invariant
            i <= entries.len(),
            entries@ == before,
            forall|k: int| 0 <= k < i ==> (#[trigger] before[k].0@) != name@,
        ensures
            i < before.len() ==> before[i as int].0@ == name@,
        decreases entries.len() - i,
    {
        if entries[i].0 == name {
            break ;
        }
        i = i + 1;
    }
    if i < entries.len() {
        entries[i] = (name, value);
    } else {
        entries.push((name, value));
    }
    proof {
        let after = entries@;
        let at = i as int;
        assert(after[at].0@ == key && after[at].1@ == text);
        assert forall|n: Seq<char>| holds(after, n) == (holds(before, n) || n == key) by {
            if holds(before, n) {
                assert(after[position(before, n)].0@ == n);
            }
        }
        assert forall|n: Seq<char>| holds(after, n) implies contents(after)[n] == (if n == key {
            text
        } else {
            contents(before)[n]
        }) by {}
    }
}

} // verus!
