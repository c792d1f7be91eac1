//! A set of interface names.

use vstd::prelude::*;
use crate::text::{clone_strings, lemma_texts_push, list_contains, position_of, texts};

verus! {

/// A finite set of names. It is kept as a list in which no name occurs
/// twice; the order of the list carries no meaning.
#[derive(Debug)]
pub struct NameSet {
    items: Vec<String>,
}

impl View for NameSet {
    type V = Set<Seq<char>>;

    closed spec fn view(&self) -> Set<Seq<char>> {
        texts(self.items@).to_set()
    }
}

impl Clone for NameSet {
    fn clone(&self) -> (r: Self)
        ensures
            r@ == self@,
    {
        proof {
            use_type_invariant(self);
        }
        NameSet { items: clone_strings(&self.items) }
    }
}

impl NameSet {
    #[verifier::type_invariant]
    spec fn distinct(self) -> bool {
        texts(self.items@).no_duplicates()
    }

    /// The empty set.
    pub fn new() -> (r: Self)
        ensures
            r@ == Set::<Seq<char>>::empty(),
    {
        NameSet { items: Vec::new() }
    }

    /// Whether `name` is in the set.
    pub fn contains(&self, name: &str) -> (r: bool)
        ensures
            r == self@.contains(name@),
    {
        list_contains(&self.items, name)
    }

    /// Puts `name` into the set. Returns whether it was new.
    pub fn insert(&mut self, name: String) -> (r: bool)
        ensures
            final(self)@ == old(self)@.insert(name@),
            r == !old(self)@.contains(name@),
    {
        proof {
            use_type_invariant(&*self);
        }
        match position_of(&self.items, name.as_str()) {
            Some(i) => {
                assert(texts(self.items@)[i as int] == name@);
                false
            },
            None => {
                let ghost before = texts(self.items@);
                let mut items = Vec::new();
                std::mem::swap(&mut items, &mut self.items);
                proof {
                    lemma_texts_push(items@, name);
                }
                items.push(name);
                proof {
                    let after = texts(items@);
                    assert(after.to_set() =~= before.to_set().insert(name@)) by {
                        assert forall|n: Seq<char>|
                            after.to_set().contains(n) == before.to_set().insert(name@).contains(
                                n,
                            ) by {
                            if before.contains(n) {
                                let k = choose|k: int| 0 <= k < before.len() && before[k] == n;
                                assert(after[k] == n);
                            }
                            if n == name@ {
                                assert(after[before.len() as int] == n);
                            }
                        }
                    }
                }
                self.items = items;
                true
            },
        }
    }

    /// Takes `name` out of the set. Returns whether it was in it.
    pub fn remove(&mut self, name: &str) -> (r: bool)
        ensures
            final(self)@ == old(self)@.remove(name@),
            r == old(self)@.contains(name@),
    {
        proof {
            use_type_invariant(&*self);
        }
        match position_of(&self.items, name) {
            Some(i) => {
                let ghost before = texts(self.items@);
                let mut items = Vec::new();
                std::mem::swap(&mut items, &mut self.items);
                items.remove(i);
                proof {
                    let after = texts(items@);
                    assert(before[i as int] == name@);
                    assert forall|k: int| 0 <= k < after.len() implies after[k] == before[if k
                        < i {
                        k
                    } else {
                        k + 1
                    }] by {}
                    assert(after.to_set() =~= before.to_set().remove(name@)) by {
                        assert forall|n: Seq<char>|
                            after.to_set().contains(n) == before.to_set().remove(name@).contains(
                                n,
                            ) by {
                            if before.contains(n) && n != name@ {
                                let k = choose|k: int| 0 <= k < before.len() && before[k] == n;
                                let k1 = if k < i { k } else { k - 1 };
                                assert(after[k1] == n);
                            }
                        }
                    }
                }
                self.items = items;
                true
            },
            None => false,
        }
    }

    /// The names of the set, each once.
    pub fn names(&self) -> (r: &Vec<String>)
        ensures
            texts(r@).no_duplicates(),
            texts(r@).to_set() == self@,
    {
        proof {
            use_type_invariant(&*self);
        }
        &self.items
    }
}

} // verus!
