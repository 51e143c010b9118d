//! An insertion-ordered set of names.

use vstd::prelude::*;

verus! {

/// The names with `name` among them: at the end if it was not there yet.
pub open spec fn with_name(names: Seq<Seq<char>>, name: Seq<char>) -> Seq<Seq<char>> {
    if names.contains(name) {
        names
    } else {
        names.push(name)
    }
}

/// The names other than `name`, in their order.
pub open spec fn without_name(names: Seq<Seq<char>>, name: Seq<char>) -> Seq<Seq<char>> {
    names.filter(|n: Seq<char>| n != name)
}

/// The texts of a run of strings, in order.
pub open spec fn name_views(names: Seq<String>) -> Seq<Seq<char>> {
    names.map_values(|n: String| n@)
}

/// Taking a name out of a run that does not hold it changes nothing.
pub proof fn lemma_without_absent(names: Seq<Seq<char>>, name: Seq<char>)
    requires
        !names.contains(name),
    ensures
        without_name(names, name) == names,
    decreases names.len(),
{
    reveal(Seq::filter);
    if names.len() > 0 {
        let rest = names.drop_last();
        lemma_without_absent(rest, name);
    }
}

/// In a run without repetition, taking a name out removes the one place
/// where it stands.
pub proof fn lemma_without_present(names: Seq<Seq<char>>, name: Seq<char>, at: int)
    requires
        names.no_duplicates(),
        0 <= at < names.len(),
        names[at] == name,
    ensures
        without_name(names, name) == names.remove(at),
    decreases names.len(),
{
    reveal(Seq::filter);
    let rest = names.drop_last();
    if at == names.len() - 1 {
        lemma_without_absent(rest, name);
    } else {
        lemma_without_present(rest, name, at);
    }
}

/// What taking a name out leaves: the name is gone, every other name stays,
/// and nothing is repeated that was not repeated before.
pub proof fn lemma_without_name(names: Seq<Seq<char>>, name: Seq<char>)
    ensures
        !without_name(names, name).contains(name),
        forall|other: Seq<char>|
            other != name ==> (#[trigger] without_name(names, name).contains(other)
                <==> names.contains(other)),
        names.no_duplicates() ==> without_name(names, name).no_duplicates(),
        without_name(names, name).len() <= names.len(),
    decreases names.len(),
{
    reveal(Seq::filter);
    let kept = without_name(names, name);
    if names.len() > 0 {
        let rest = names.drop_last();
        let last = names.last();
        let kept_rest = without_name(rest, name);
        lemma_without_name(rest, name);
        assert forall|other: Seq<char>| other != name implies (#[trigger] kept.contains(other)
            <==> names.contains(other)) by {
            if kept.contains(other) {
                let i = choose|i: int| 0 <= i < kept.len() && kept[i] == other;
                if i < kept_rest.len() {
                    assert(kept_rest.contains(other));
                }
            }
        }
        if names.no_duplicates() {
            if last != name {
                assert(!kept_rest.contains(last));
                assert forall|i: int, j: int|
                    0 <= i < kept.len() && 0 <= j < kept.len() && i != j implies kept[i]
                    != kept[j] by {
                    if i < kept_rest.len() && j < kept_rest.len() {
                        assert(kept_rest[i] != kept_rest[j]);
                    } else if i < kept_rest.len() {
                        assert(kept_rest.contains(kept[i]));
                    } else {
                        assert(kept_rest.contains(kept[j]));
                    }
                }
            }
        }
    }
}

/// A set of names that remembers the order in which they came.
#[derive(Debug)]
pub struct NameSet {
    names: Vec<String>,
}

impl View for NameSet {
    type V = Seq<Seq<char>>;

    closed spec fn view(&self) -> Seq<Seq<char>> {
        name_views(self.names@)
    }
}

impl Clone for NameSet {
    fn clone(&self) -> (copy: Self)
        ensures
            copy@ == self@,
    {
        NameSet { names: self.to_vec() }
    }
}

impl NameSet {
    /// No name occurs twice.
    pub open spec fn wf(&self) -> bool {
        self@.no_duplicates()
    }

    /// Creates an empty set.
    pub fn new() -> (set: Self)
        ensures
            set@ == Seq::<Seq<char>>::empty(),
            set.wf(),
    {
        let set = NameSet { names: Vec::new() };
        set
    }

    /// The number of names in the set.
    pub fn len(&self) -> (count: usize)
        ensures
            count == self@.len(),
    {
        self.names.len()
    }

    /// The name at the given place, counted from the oldest.
    pub fn get(&self, at: usize) -> (name: &str)
        requires
            at < self@.len(),
        ensures
            name@ == self@[at as int],
    {
        self.names[at].as_str()
    }

    /// The first place at which a name stands, if it is in the set.
    pub fn position(&self, name: &str) -> (found: Option<usize>)
        ensures
            match found {
                Some(at) => {
                    &&& at < self@.len()
                    &&& self@[at as int] == name@
                    &&& forall|k: int| 0 <= k < at ==> self@[k] != name@
                },
                None => !self@.contains(name@),
            },
    {
        let mut i: usize = 0;
        while i < self.names.len()
            invariant
                i <= self.names.len(),
                forall|k: int| 0 <= k < i ==> self@[k] != name@,
            decreases self.names.len() - i,
        {
            if self.names[i].as_str().eq(name) {
                return Some(i);
            }
            i += 1;
        }
        None
    }

    /// Whether the name is in the set.
    pub fn contains(&self, name: &str) -> (found: bool)
        ensures
            found == self@.contains(name@),
    {
        self.position(name).is_some()
    }

    /// Puts a name into the set; says whether it was new.
    pub fn insert(&mut self, name: &str) -> (added: bool)
        requires
            old(self).wf(),
        ensures
            final(self).wf(),
            final(self)@ == with_name(old(self)@, name@),
            added == !old(self)@.contains(name@),
    {
        if self.contains(name) {
            false
        } else {
            self.names.push(name.to_owned());
            assert(self@ =~= old(self)@.push(name@));
            true
        }
    }

    /// Takes a name out of the set; says whether it was there.
    pub fn remove(&mut self, name: &str) -> (removed: bool)
        requires
            old(self).wf(),
        ensures
            final(self).wf(),
            final(self)@ == without_name(old(self)@, name@),
            removed == old(self)@.contains(name@),
    {
        proof {
            lemma_without_name(self@, name@);
        }
        match self.position(name) {
            Some(at) => {
                let _ = self.names.remove(at);
                proof {
                    lemma_without_present(old(self)@, name@, at as int);
                    assert(self@ =~= old(self)@.remove(at as int));
                }
                true
            },
            None => {
                proof {
                    lemma_without_absent(self@, name@);
                }
                false
            },
        }
    }

    /// The names as owned strings, oldest first.
    pub fn to_vec(&self) -> (names: Vec<String>)
        ensures
            name_views(names@) == self@,
    {
        let mut names: Vec<String> = Vec::new();
        let mut i: usize = 0;
        while i < self.names.len()
            invariant
                i <= self.names.len(),
                names.len() == i,
                forall|k: int| 0 <= k < i ==> names[k]@ == self.names[k]@,
            decreases self.names.len() - i,
        {
            names.push(self.names[i].clone());
            i += 1;
        }
        names
    }
}

} // verus!
