//! Keeping the list of known interfaces in step with what was observed.
//!
//! The list gives the interfaces a stable place on the screen: a name that
//! stays observed keeps its place, a name that is no longer observed leaves,
//! and a name observed for the first time goes to the end and is switched on.

use vstd::prelude::*;
use crate::addresses::AddressTable;
use crate::names::NameSet;
use crate::text::{
    ascending_list, lemma_ascending_distinct, lemma_texts_push, list_contains, texts,
};

verus! {

/// The test "is in `l`".
pub open spec fn member_of(l: Seq<Seq<char>>) -> spec_fn(Seq<char>) -> bool {
    |n: Seq<char>| l.contains(n)
}

/// The test "is not in `l`".
pub open spec fn absent_from(l: Seq<Seq<char>>) -> spec_fn(Seq<char>) -> bool {
    |n: Seq<char>| !l.contains(n)
}

/// The known names that are still seen, in their old order.
pub open spec fn retained(known: Seq<Seq<char>>, seen: Seq<Seq<char>>) -> Seq<Seq<char>> {
    known.filter(member_of(seen))
}

/// The seen names that were not known, in the order in which they are seen.
pub open spec fn arrivals(known: Seq<Seq<char>>, seen: Seq<Seq<char>>) -> Seq<Seq<char>> {
    seen.filter(absent_from(known))
}

/// The next list of known names: those retained, then the arrivals.
pub open spec fn reconciled(known: Seq<Seq<char>>, seen: Seq<Seq<char>>) -> Seq<Seq<char>> {
    retained(known, seen) + arrivals(known, seen)
}

/// A test that every member passes filters nothing out.
proof fn lemma_filter_all(s: Seq<Seq<char>>, keep: spec_fn(Seq<char>) -> bool)
    requires
        forall|i: int| 0 <= i < s.len() ==> keep(#[trigger] s[i]),
    ensures
        s.filter(keep) == s,
    decreases s.len(),
{
    reveal(Seq::filter);
    if s.len() > 0 {
        lemma_filter_all(s.drop_last(), keep);
    }
}

/// A test that no member passes filters everything out.
proof fn lemma_filter_none(s: Seq<Seq<char>>, keep: spec_fn(Seq<char>) -> bool)
    requires
        forall|i: int| 0 <= i < s.len() ==> !keep(#[trigger] s[i]),
    ensures
        s.filter(keep) == Seq::<Seq<char>>::empty(),
    decreases s.len(),
{
    reveal(Seq::filter);
    if s.len() > 0 {
        lemma_filter_none(s.drop_last(), keep);
    }
}

/// Filtering keeps a list free of repetition.
proof fn lemma_filter_distinct(s: Seq<Seq<char>>, keep: spec_fn(Seq<char>) -> bool)
    requires
        s.no_duplicates(),
    ensures
        s.filter(keep).no_duplicates(),
    decreases s.len(),
{
    reveal(Seq::filter);
    if s.len() > 0 {
        let front = s.drop_last();
        lemma_filter_distinct(front, keep);
        let out = front.filter(keep);
        if keep(s.last()) {
            assert forall|i: int| 0 <= i < out.len() implies out[i] != s.last() by {
                front.lemma_filter_contains_rev(keep, out[i]);
            }
        }
    }
}

/// The names of the reconciled list are exactly the names seen.
pub proof fn lemma_reconciled_members(known: Seq<Seq<char>>, seen: Seq<Seq<char>>)
    ensures
        reconciled(known, seen).to_set() == seen.to_set(),
{
    let kept = retained(known, seen);
    let added = arrivals(known, seen);
    let next = reconciled(known, seen);
    assert forall|n: Seq<char>| next.contains(n) == seen.contains(n) by {
        if next.contains(n) {
            let k = next.index_of(n);
            if k < kept.len() {
                known.lemma_filter_pred(member_of(seen), k);
            } else {
                seen.lemma_filter_contains_rev(absent_from(known), n);
            }
        }
        if seen.contains(n) {
            if known.contains(n) {
                let k = known.index_of(n);
                known.lemma_filter_contains(member_of(seen), k);
                let j = kept.index_of(n);
                assert(next[j] == n);
            } else {
                let k = seen.index_of(n);
                seen.lemma_filter_contains(absent_from(known), k);
                let j = added.index_of(n);
                assert(next[kept.len() + j] == n);
            }
        }
    }
}

/// No name occurs twice in the reconciled list, if none did in the known
/// list nor among the names seen.
pub proof fn lemma_reconciled_distinct(known: Seq<Seq<char>>, seen: Seq<Seq<char>>)
    requires
        known.no_duplicates(),
        seen.no_duplicates(),
    ensures
        reconciled(known, seen).no_duplicates(),
{
    let kept = retained(known, seen);
    let added = arrivals(known, seen);
    lemma_filter_distinct(known, member_of(seen));
    lemma_filter_distinct(seen, absent_from(known));
    assert forall|i: int, j: int| 0 <= i < kept.len() && 0 <= j < added.len() implies kept[i]
        != added[j] by {
        seen.lemma_filter_pred(absent_from(known), j);
        known.lemma_filter_contains_rev(member_of(seen), kept[i]);
    }
    vstd::seq_lib::lemma_no_dup_in_concat(kept, added);
}

/// Once the known list is the list of names seen, observing the same names
/// again changes nothing: no name moves.
pub proof fn lemma_reconciled_converged(seen: Seq<Seq<char>>)
    ensures
        reconciled(seen, seen) == seen,
{
    lemma_filter_all(seen, member_of(seen));
    lemma_filter_none(seen, absent_from(seen));
}

/// Reconciling a second time with the same names seen changes nothing,
/// whatever the known list was before the first time: every name is
/// retained and none arrives.
pub proof fn lemma_reconciled_idempotent(known: Seq<Seq<char>>, seen: Seq<Seq<char>>)
    ensures
        retained(reconciled(known, seen), seen) == reconciled(known, seen),
        arrivals(reconciled(known, seen), seen) == Seq::<Seq<char>>::empty(),
        reconciled(reconciled(known, seen), seen) == reconciled(known, seen),
{
    let next = reconciled(known, seen);
    lemma_reconciled_members(known, seen);
    assert forall|i: int| 0 <= i < next.len() implies member_of(seen)(#[trigger] next[i]) by {
        assert(seen.to_set().contains(next[i]));
    }
    assert forall|i: int| 0 <= i < seen.len() implies !absent_from(next)(#[trigger] seen[i]) by {
        assert(next.to_set().contains(seen[i]));
    }
    lemma_filter_all(next, member_of(seen));
    lemma_filter_none(seen, absent_from(next));
}

/// The strings of `v` that `other` holds, where `present` is set, or those
/// that it lacks, where it is not; in their order in `v`.
fn select(v: &Vec<String>, other: &Vec<String>, present: bool) -> (r: Vec<String>)
    ensures
        texts(r@) == texts(v@).filter(
            if present {
                member_of(texts(other@))
            } else {
                absent_from(texts(other@))
            },
        ),
{
    let ghost keep = if present {
        member_of(texts(other@))
    } else {
        absent_from(texts(other@))
    };
    let mut r: Vec<String> = Vec::new();
    let mut i: usize = 0;
    proof {
        reveal(Seq::filter);
    }
    while i < v.len()
        invariant
            i <= v.len(),
            keep == if present {
                member_of(texts(other@))
            } else {
                absent_from(texts(other@))
            },
            texts(r@) == texts(v@).take(i as int).filter(keep),
        decreases v.len() - i,
    {
        proof {
            let head = texts(v@).take(i as int);
            assert(texts(v@).take(i + 1) =~= head.push(v[i as int]@));
            head.lemma_filter_push(v[i as int]@, keep);
        }
        if list_contains(other, v[i].as_str()) == present {
            let s = v[i].clone();
            proof {
                lemma_texts_push(r@, s);
            }
            r.push(s);
        }
        i = i + 1;
    }
    assert(texts(v@).take(i as int) =~= texts(v@));
    r
}

/// Brings the known names in step with the addresses just observed, and
/// switches on every interface that is seen for the first time.
///
/// Returns the next list of known names: the names of `known` that
/// `observed` still holds, in their old order, and behind them the names of
/// `observed` that `known` lacks, in ascending order. Exactly those names
/// are added to `enabled`. A known list without repetition stays so.
pub fn reconcile(known: &Vec<String>, enabled: &mut NameSet, observed: &AddressTable) -> (next:
    Vec<String>)
    ensures
        texts(next@) == reconciled(texts(known@), ascending_list(observed@.dom())),
        final(enabled)@ == old(enabled)@.union(
            arrivals(texts(known@), ascending_list(observed@.dom())).to_set(),
        ),
        texts(known@).no_duplicates() ==> texts(next@).no_duplicates(),
{
    let seen = observed.names();
    proof {
        lemma_ascending_distinct(texts(seen@));
        if texts(known@).no_duplicates() {
            lemma_reconciled_distinct(texts(known@), texts(seen@));
        }
    }
    let fresh = select(seen, known, false);
    let mut next = select(known, seen, true);
    let ghost kept = texts(next@);
    let ghost added = texts(fresh@);
    let mut i: usize = 0;
    while i < fresh.len()
        invariant
            i <= fresh.len(),
            added == texts(fresh@),
            texts(next@) == kept + added.take(i as int),
            enabled@ == old(enabled)@.union(added.take(i as int).to_set()),
        decreases fresh.len() - i,
    {
        let ghost before = added.take(i as int);
        let ghost after = added.take(i + 1);
        let name = fresh[i].clone();
        let again = fresh[i].clone();
        proof {
            lemma_texts_push(next@, again);
            assert(after.to_set() =~= before.to_set().insert(name@)) by {
                assert forall|n: Seq<char>|
                    after.to_set().contains(n) == before.to_set().insert(name@).contains(n) by {
                    if n == name@ {
                        assert(after[i as int] == n);
                    }
                }
            }
        }
        enabled.insert(name);
        next.push(again);
        i = i + 1;
    }
    assert(added.take(i as int) =~= added);
    next
}

} // verus!
