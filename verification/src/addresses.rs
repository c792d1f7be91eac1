//! The addresses observed on the host's network interfaces.

use vstd::prelude::*;
use crate::text::{
    ascending, ascending_list, clone_strings, lemma_ascending_distinct, lemma_ascending_list,
    lemma_precedes_irreflexive, lemma_precedes_total, lemma_precedes_transitive, precedes,
    str_equal, str_precedes, texts,
};

verus! {

/// What the host says of one interface address: the interface's name,
/// whether the address is a loopback address, and the address itself where
/// it is an IPv4 address.
#[derive(Debug, Clone)]
pub struct InterfaceRecord {
    pub name: String,
    pub loopback: bool,
    pub ipv4: Option<String>,
}

impl InterfaceRecord {
    /// Whether the record is one to show: not loopback, and with an IPv4
    /// address.
    pub open spec fn shown(self) -> bool {
        !self.loopback && self.ipv4 is Some
    }
}

/// The addresses to show for a list of records: each shown record's address
/// under its interface's name, a later record replacing an earlier one of
/// the same name.
pub open spec fn observed(records: Seq<InterfaceRecord>) -> Map<Seq<char>, Seq<char>>
    decreases records.len(),
{
    if records.len() == 0 {
        Map::empty()
    } else {
        let earlier = observed(records.drop_last());
        let r = records.last();
        if r.shown() {
            earlier.insert(r.name@, r.ipv4->0@)
        } else {
            earlier
        }
    }
}

/// An interface has an address to show exactly when some record of that
/// name is shown. So a loopback address never makes its interface appear,
/// nor does an interface without an IPv4 address.
pub proof fn lemma_observed_names(records: Seq<InterfaceRecord>, name: Seq<char>)
    ensures
        observed(records).dom().contains(name) <==> exists|i: int|
            0 <= i < records.len() && (#[trigger] records[i]).name@ == name && records[i].shown(),
    decreases records.len(),
{
    if records.len() > 0 {
        let earlier = records.drop_last();
        lemma_observed_names(earlier, name);
        if exists|i: int|
            0 <= i < records.len() && (#[trigger] records[i]).name@ == name && records[i].shown() {
            let i = choose|i: int|
                0 <= i < records.len() && (#[trigger] records[i]).name@ == name
                    && records[i].shown();
            if i < records.len() - 1 {
                assert(earlier[i].name@ == name && earlier[i].shown());
            }
        }
    }
}

/// An interface whose every record is flagged loopback has no address to
/// show, whatever addresses the records hold.
pub proof fn lemma_loopback_excluded(records: Seq<InterfaceRecord>, name: Seq<char>)
    requires
        forall|i: int|
            0 <= i < records.len() && (#[trigger] records[i]).name@ == name
                ==> records[i].loopback,
    ensures
        !observed(records).dom().contains(name),
{
    lemma_observed_names(records, name);
}

/// The address shown for an interface is that of the last shown record of
/// its name.
pub proof fn lemma_observed_address(records: Seq<InterfaceRecord>, i: int)
    requires
        0 <= i < records.len(),
        records[i].shown(),
        forall|j: int|
            i < j < records.len() && (#[trigger] records[j]).shown() ==> records[j].name@
                != records[i].name@,
    ensures
        observed(records).dom().contains(records[i].name@),
        observed(records)[records[i].name@] == records[i].ipv4->0@,
    decreases records.len(),
{
    if i < records.len() - 1 {
        lemma_observed_address(records.drop_last(), i);
    }
}

/// The map that takes each of `names` to the value at the same place in
/// `values`.
pub open spec fn paired(names: Seq<Seq<char>>, values: Seq<Seq<char>>) -> Map<
    Seq<char>,
    Seq<char>,
> {
    Map::new(|n: Seq<char>| names.contains(n), |n: Seq<char>| values[names.index_of(n)])
}

/// In a list without repetition, the name at `i` is paired with the value
/// at `i`.
proof fn lemma_paired_at(names: Seq<Seq<char>>, values: Seq<Seq<char>>, i: int)
    requires
        names.no_duplicates(),
        0 <= i < names.len(),
    ensures
        paired(names, values).dom().contains(names[i]),
        paired(names, values)[names[i]] == values[i],
{
}

/// Putting a new name into the list adds one pair to the map.
proof fn lemma_paired_insert(
    names: Seq<Seq<char>>,
    values: Seq<Seq<char>>,
    at: int,
    name: Seq<char>,
    value: Seq<char>,
)
    requires
        names.len() == values.len(),
        0 <= at <= names.len(),
        names.no_duplicates(),
        names.insert(at, name).no_duplicates(),
    ensures
        paired(names.insert(at, name), values.insert(at, value)) == paired(names, values).insert(
            name,
            value,
        ),
{
    let names2 = names.insert(at, name);
    assert(names2[at] == name);
    assert forall|n: Seq<char>| names2.contains(n) <==> (n == name || names.contains(n)) by {
        if names.contains(n) {
            let k = names.index_of(n);
            assert(names2[if k < at { k } else { k + 1 }] == n);
        }
    }
}

/// Changing the value at one place changes one pair of the map.
proof fn lemma_paired_update(
    names: Seq<Seq<char>>,
    values: Seq<Seq<char>>,
    at: int,
    value: Seq<char>,
)
    requires
        names.len() == values.len(),
        0 <= at < names.len(),
        names.no_duplicates(),
    ensures
        paired(names, values.update(at, value)) == paired(names, values).insert(names[at], value),
{
}

/// The current address of each interface, by the interface's name. The
/// names are kept in ascending order.
#[derive(Debug)]
pub struct AddressTable {
    names: Vec<String>,
    addresses: Vec<String>,
}

impl View for AddressTable {
    type V = Map<Seq<char>, Seq<char>>;

    closed spec fn view(&self) -> Map<Seq<char>, Seq<char>> {
        paired(texts(self.names@), texts(self.addresses@))
    }
}

impl Clone for AddressTable {
    fn clone(&self) -> (r: Self)
        ensures
            r@ == self@,
    {
        proof {
            use_type_invariant(self);
        }
        let names = clone_strings(&self.names);
        let addresses = clone_strings(&self.addresses);
        assert(texts(names@).len() == texts(self.names@).len());
        assert(texts(addresses@).len() == texts(self.addresses@).len());
        AddressTable { names, addresses }
    }
}

impl AddressTable {
    #[verifier::type_invariant]
    spec fn ordered(self) -> bool {
        &&& self.names.len() == self.addresses.len()
        &&& ascending(texts(self.names@))
    }

    /// The table without any address.
    pub fn new() -> (r: Self)
        ensures
            r@ == Map::<Seq<char>, Seq<char>>::empty(),
    {
        AddressTable { names: Vec::new(), addresses: Vec::new() }
    }

    /// The first place whose name does not come before `name`.
    fn slot(&self, name: &str) -> (at: usize)
        ensures
            at <= self.names.len(),
            forall|j: int| 0 <= j < at ==> precedes(#[trigger] self.names[j]@, name@),
            forall|j: int|
                at <= j < self.names.len() ==> !precedes(#[trigger] self.names[j]@, name@),
    {
        proof {
            use_type_invariant(self);
        }
        let mut at: usize = 0;
        while at < self.names.len() && str_precedes(self.names[at].as_str(), name)
            invariant
                at <= self.names.len(),
                forall|j: int| 0 <= j < at ==> precedes(#[trigger] self.names[j]@, name@),
            decreases self.names.len() - at,
        {
            at = at + 1;
        }
        assert forall|j: int| at <= j < self.names.len() implies !precedes(
            #[trigger] self.names[j]@,
            name@,
        ) by {
            if at < j && precedes(self.names[j]@, name@) {
                assert(precedes(texts(self.names@)[at as int], texts(self.names@)[j]));
                lemma_precedes_transitive(self.names[at as int]@, self.names[j]@, name@);
            }
        }
        at
    }

    /// The place of `name`, if the table holds it.
    fn find(&self, name: &str) -> (r: Option<usize>)
        ensures
            match r {
                Some(i) => i < self.names.len() && self.names[i as int]@ == name@,
                None => !texts(self.names@).contains(name@),
            },
    {
        proof {
            use_type_invariant(self);
        }
        let at = self.slot(name);
        if at < self.names.len() && str_equal(self.names[at].as_str(), name) {
            Some(at)
        } else {
            assert(!texts(self.names@).contains(name@)) by {
                let t = texts(self.names@);
                if t.contains(name@) {
                    let j = t.index_of(name@);
                    lemma_precedes_irreflexive(name@);
                    if j > at {
                        assert(precedes(t[at as int], t[j]));
                        lemma_precedes_total(self.names[at as int]@, name@);
                    }
                }
            }
            None
        }
    }

    /// The address of the interface called `name`, if the table holds one.
    pub fn get(&self, name: &str) -> (r: Option<&String>)
        ensures
            match r {
                Some(a) => self@.dom().contains(name@) && a@ == self@[name@],
                None => !self@.dom().contains(name@),
            },
    {
        proof {
            use_type_invariant(self);
            lemma_ascending_distinct(texts(self.names@));
        }
        match self.find(name) {
            Some(i) => {
                proof {
                    lemma_paired_at(texts(self.names@), texts(self.addresses@), i as int);
                }
                Some(&self.addresses[i])
            },
            None => None,
        }
    }

    /// Records `address` as the address of the interface called `name`, in
    /// place of any address that the table held for it.
    pub fn insert(&mut self, name: String, address: String)
        ensures
            final(self)@ == old(self)@.insert(name@, address@),
    {
        proof {
            use_type_invariant(&*self);
            lemma_ascending_distinct(texts(self.names@));
        }
        let at = self.slot(name.as_str());
        let ghost names0 = texts(self.names@);
        let ghost values0 = texts(self.addresses@);
        let mut taken = AddressTable::new();
        std::mem::swap(self, &mut taken);
        let AddressTable { mut names, mut addresses } = taken;
        if at < names.len() && str_equal(names[at].as_str(), name.as_str()) {
            addresses.set(at, address);
            proof {
                lemma_paired_update(names0, values0, at as int, address@);
            }
        } else {
            names.insert(at, name);
            addresses.insert(at, address);
            proof {
                let names1 = texts(names@);
                assert(names1 =~= names0.insert(at as int, name@));
                assert(ascending(names1)) by {
                    assert forall|i: int, j: int| 0 <= i < j < names1.len() implies precedes(
                        #[trigger] names1[i],
                        #[trigger] names1[j],
                    ) by {
                        if i == at {
                            lemma_precedes_total(names0[at as int], name@);
                            if j - 1 > at {
                                lemma_precedes_transitive(name@, names0[at as int], names0[j - 1]);
                            }
                        }
                    }
                }
                lemma_ascending_distinct(names1);
                lemma_paired_insert(names0, values0, at as int, name@, address@);
            }
        }
        *self = AddressTable { names, addresses };
    }

    /// The names of the interfaces that have an address, in ascending order.
    pub fn names(&self) -> (r: &Vec<String>)
        ensures
            texts(r@) == ascending_list(self@.dom()),
            ascending(texts(r@)),
            texts(r@).to_set() == self@.dom(),
    {
        proof {
            use_type_invariant(self);
            lemma_ascending_list(texts(self.names@));
        }
        &self.names
    }
}

/// The addresses to show for the records of the host's interfaces.
pub fn collect_addresses(records: &Vec<InterfaceRecord>) -> (r: AddressTable)
    ensures
        r@ == observed(records@),
{
    let mut table = AddressTable::new();
    let mut i: usize = 0;
    while i < records.len()
        invariant
            i <= records.len(),
            table@ == observed(records@.take(i as int)),
        decreases records.len() - i,
    {
        let record = &records[i];
        assert(records@.take(i + 1).drop_last() =~= records@.take(i as int));
        if !record.loopback {
            match &record.ipv4 {
                Some(address) => {
                    table.insert(record.name.clone(), address.clone());
                },
                None => {},
            }
        }
        i = i + 1;
    }
    assert(records@.take(i as int) =~= records@);
    table
}

} // verus!
