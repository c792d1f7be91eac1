//! Strings as sequences of characters: their order, and trimming.

use vstd::prelude::*;

verus! {

/// The views of a list of strings, in the same order.
pub open spec fn texts(v: Seq<String>) -> Seq<Seq<char>> {
    Seq::new(v.len(), |i: int| v[i]@)
}

/// Adding a string to a list adds its view to the list's views.
pub proof fn lemma_texts_push(v: Seq<String>, s: String)
    ensures
        texts(v.push(s)) == texts(v).push(s@),
{
}

/// A copy of a list of strings.
pub(crate) fn clone_strings(v: &Vec<String>) -> (r: Vec<String>)
    ensures
        texts(r@) == texts(v@),
{
    let mut r: Vec<String> = Vec::new();
    let mut i: usize = 0;
    while i < v.len()
        invariant
            i <= v.len(),
            texts(r@) == texts(v@).take(i as int),
        decreases v.len() - i,
    {
        let s = v[i].clone();
        proof {
            lemma_texts_push(r@, s);
        }
        r.push(s);
        i = i + 1;
    }
    r
}

/// `a` comes strictly before `b` when strings are compared character by
/// character, each character by its code point; a proper prefix comes first.
pub open spec fn precedes(a: Seq<char>, b: Seq<char>) -> bool
    decreases a.len(),
{
    if b.len() == 0 {
        false
    } else if a.len() == 0 {
        true
    } else if a[0] == b[0] {
        precedes(a.drop_first(), b.drop_first())
    } else {
        a[0] < b[0]
    }
}

/// No string comes before itself.
pub proof fn lemma_precedes_irreflexive(a: Seq<char>)
    ensures
        !precedes(a, a),
    decreases a.len(),
{
    if a.len() > 0 {
        lemma_precedes_irreflexive(a.drop_first());
    }
}

/// The order is transitive.
pub proof fn lemma_precedes_transitive(a: Seq<char>, b: Seq<char>, c: Seq<char>)
    requires
        precedes(a, b),
        precedes(b, c),
    ensures
        precedes(a, c),
    decreases a.len(),
{
    if a.len() > 0 && a[0] == b[0] && b[0] == c[0] {
        lemma_precedes_transitive(a.drop_first(), b.drop_first(), c.drop_first());
    }
}

/// Of two different strings one comes before the other.
pub proof fn lemma_precedes_total(a: Seq<char>, b: Seq<char>)
    ensures
        precedes(a, b) || precedes(b, a) || a == b,
    decreases a.len(),
{
    if a.len() > 0 && b.len() > 0 && a[0] == b[0] {
        lemma_precedes_total(a.drop_first(), b.drop_first());
        if a.drop_first() == b.drop_first() {
            assert(b =~= seq![b[0]] + b.drop_first());
        }
    }
}

/// Every string of the list comes strictly before those behind it.
pub open spec fn ascending(l: Seq<Seq<char>>) -> bool {
    forall|i: int, j: int| 0 <= i < j < l.len() ==> precedes(#[trigger] l[i], #[trigger] l[j])
}

/// The members of a finite set of strings in ascending order.
pub open spec fn ascending_list(s: Set<Seq<char>>) -> Seq<Seq<char>> {
    choose|l: Seq<Seq<char>>| ascending(l) && l.to_set() == s
}

/// An ascending list holds no string twice.
pub proof fn lemma_ascending_distinct(l: Seq<Seq<char>>)
    requires
        ascending(l),
    ensures
        l.no_duplicates(),
{
    assert forall|i: int, j: int| 0 <= i < l.len() && 0 <= j < l.len() && i != j implies l[i]
        != l[j] by {
        lemma_precedes_irreflexive(l[i]);
    }
}

/// Two ascending lists with the same members are the same list.
pub proof fn lemma_ascending_unique(a: Seq<Seq<char>>, b: Seq<Seq<char>>)
    requires
        ascending(a),
        ascending(b),
        a.to_set() == b.to_set(),
    ensures
        a == b,
    decreases a.len(),
{
    lemma_ascending_distinct(a);
    lemma_ascending_distinct(b);
    a.unique_seq_to_set();
    b.unique_seq_to_set();
    if a.len() > 0 {
        // The last string of each list is the greatest member, so the two
        // lists end alike.
        let x = a.last();
        let y = b.last();
        assert(a.to_set().contains(x));
        assert(b.to_set().contains(y));
        let k = choose|k: int| 0 <= k < b.len() && b[k] == x;
        let m = choose|m: int| 0 <= m < a.len() && a[m] == y;
        if k < b.len() - 1 && m < a.len() - 1 {
            lemma_precedes_transitive(x, y, x);
            lemma_precedes_irreflexive(x);
        } else if k < b.len() - 1 {
            lemma_precedes_irreflexive(x);
        } else if m < a.len() - 1 {
            lemma_precedes_irreflexive(y);
        }
        // Without it, the two lists still have the same members.
        let a0 = a.drop_last();
        let b0 = b.drop_last();
        assert(a0.to_set() =~= b0.to_set()) by {
            assert forall|n: Seq<char>| a0.to_set().contains(n) == b0.to_set().contains(n) by {
                if a0.contains(n) {
                    let i = choose|i: int| 0 <= i < a0.len() && a0[i] == n;
                    assert(b.to_set().contains(n));
                    let j = choose|j: int| 0 <= j < b.len() && b[j] == n;
                    assert(b0[j] == n);
                }
                if b0.contains(n) {
                    let i = choose|i: int| 0 <= i < b0.len() && b0[i] == n;
                    assert(a.to_set().contains(n));
                    let j = choose|j: int| 0 <= j < a.len() && a[j] == n;
                    assert(a0[j] == n);
                }
            }
        }
        lemma_ascending_unique(a0, b0);
        assert(b =~= b0.push(y));
    }
}

/// An ascending list is the ascending list of its own members.
pub proof fn lemma_ascending_list(l: Seq<Seq<char>>)
    requires
        ascending(l),
    ensures
        ascending_list(l.to_set()) == l,
{
    let c = ascending_list(l.to_set());
    lemma_ascending_unique(c, l);
}

/// `str`'s own `<`: the standard library orders strings lexicographically by
/// their bytes, which is the order of their code points.
#[verifier::external_body]
pub(crate) fn str_precedes(a: &str, b: &str) -> (r: bool)
    ensures
        r == precedes(a@, b@),
{
    a < b
}

/// `str`'s own `==`: two strings are equal when they hold the same
/// characters.
#[verifier::external_body]
pub(crate) fn str_equal(a: &str, b: &str) -> (r: bool)
    ensures
        r == (a@ == b@),
{
    a == b
}

/// The first place of `name` in the list, if it is there.
pub(crate) fn position_of(v: &Vec<String>, name: &str) -> (r: Option<usize>)
    ensures
        match r {
            Some(i) => i < v.len() && v[i as int]@ == name@ && forall|j: int|
                0 <= j < i ==> v[j]@ != name@,
            None => !texts(v@).contains(name@),
        },
{
    let mut i: usize = 0;
    while i < v.len()
        invariant
            i <= v.len(),
            forall|j: int| 0 <= j < i ==> v[j]@ != name@,
        decreases v.len() - i,
    {
        if str_equal(v[i].as_str(), name) {
            return Some(i);
        }
        i = i + 1;
    }
    None
}

/// Whether `name` is in the list.
pub(crate) fn list_contains(v: &Vec<String>, name: &str) -> (r: bool)
    ensures
        r == texts(v@).contains(name@),
{
    match position_of(v, name) {
        Some(i) => {
            assert(texts(v@)[i as int] == name@);
            true
        },
        None => false,
    }
}

/// What `char::is_whitespace` answers for a character.
pub uninterp spec fn is_white_space(c: char) -> bool;

/// `char::is_whitespace`: whether the character has Unicode's white space
/// property. Nothing is claimed of which characters have it.
#[verifier::external_body]
pub(crate) fn char_is_whitespace(c: char) -> (r: bool)
    ensures
        r == is_white_space(c),
{
    c.is_whitespace()
}

/// The index of the first character that is not white space, or the length
/// of `s` where every character is.
pub open spec fn visible_start(s: Seq<char>) -> int
    decreases s.len(),
{
    if s.len() == 0 || !is_white_space(s[0]) {
        0
    } else {
        1 + visible_start(s.drop_first())
    }
}

/// The index just behind the last character that is not white space, or 0
/// where every character is.
pub open spec fn visible_end(s: Seq<char>) -> int
    decreases s.len(),
{
    if s.len() == 0 {
        0
    } else if !is_white_space(s.last()) {
        s.len() as int
    } else {
        visible_end(s.drop_last())
    }
}

/// `s` without the white space at its two ends.
pub open spec fn trimmed(s: Seq<char>) -> Seq<char> {
    if visible_start(s) < visible_end(s) {
        s.subrange(visible_start(s), visible_end(s))
    } else {
        Seq::empty()
    }
}

/// `visible_start` is the one index with only white space before it and
/// none at it.
pub proof fn lemma_visible_start(s: Seq<char>, k: int)
    requires
        0 <= k <= s.len(),
        forall|j: int| 0 <= j < k ==> is_white_space(#[trigger] s[j]),
        k < s.len() ==> !is_white_space(s[k]),
    ensures
        visible_start(s) == k,
    decreases s.len(),
{
    if k > 0 {
        lemma_visible_start(s.drop_first(), k - 1);
    }
}

/// `visible_end` is the one index with only white space from it on and none
/// just before it.
pub proof fn lemma_visible_end(s: Seq<char>, k: int)
    requires
        0 <= k <= s.len(),
        forall|j: int| k <= j < s.len() ==> is_white_space(#[trigger] s[j]),
        k > 0 ==> !is_white_space(s[k - 1]),
    ensures
        visible_end(s) == k,
    decreases s.len(),
{
    if k < s.len() {
        lemma_visible_end(s.drop_last(), k);
    }
}

/// A copy of `s` without the white space at its two ends.
pub fn trim(s: &str) -> (r: String)
    ensures
        r@ == trimmed(s@),
{
    broadcast use vstd::string::group_string_axioms;

    let len = s.unicode_len();
    let mut start: usize = 0;
    let mut end: usize = 0;
    let mut seen: usize = 0;
    for c in it: s.chars()
        invariant
            it.seq() == s@,
            seen == it.index(),
            len == s@.len(),
            0 <= start <= end <= seen,
            end == 0 ==> start == 0,
            end > 0 ==> start < end,
            forall|j: int| 0 <= j < start ==> is_white_space(#[trigger] s@[j]),
            forall|j: int| end <= j < seen ==> is_white_space(#[trigger] s@[j]),
            end > 0 ==> !is_white_space(s@[start as int]) && !is_white_space(s@[end - 1]),
    {
        if !char_is_whitespace(c) {
            if end == 0 {
                start = seen;
            }
            end = seen + 1;
        }
        seen = seen + 1;
    }
    proof {
        if end == 0 {
            lemma_visible_start(s@, s@.len() as int);
            lemma_visible_end(s@, 0);
        } else {
            lemma_visible_start(s@, start as int);
            lemma_visible_end(s@, end as int);
        }
    }
    if end == 0 {
        String::new()
    } else {
        s.substring_char(start, end).to_owned()
    }
}

} // verus!
