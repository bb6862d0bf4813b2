//! Lists of names, read as sets.

use vstd::prelude::*;

verus! {

/// Whether one of the first `n` strings in `names` spells `name`.
pub open spec fn listed(names: Seq<String>, name: Seq<char>, n: int) -> bool {
    exists|i: int| 0 <= i < n && i < names.len() && (#[trigger] names[i])@ == name
}

/// The set of the names that `names` spells.
pub open spec fn name_set(names: Seq<String>) -> Set<Seq<char>> {
    Set::new(|name: Seq<char>| listed(names, name, names.len() as int))
}

pub proof fn lemma_name_set_push(names: Seq<String>, s: String)
    ensures
        name_set(names.push(s)) == name_set(names).insert(s@),
{
    let after = names.push(s);
    assert forall|n: Seq<char>| name_set(after).contains(n) == name_set(names).insert(s@).contains(
        n,
    ) by {
        if listed(after, n, after.len() as int) {
            let i = choose|i: int| 0 <= i < after.len() && (#[trigger] after[i])@ == n;
            if i < names.len() {
                assert(names[i]@ == n);
            }
        }
        if listed(names, n, names.len() as int) {
            let i = choose|i: int| 0 <= i < names.len() && (#[trigger] names[i])@ == n;
            assert(after[i]@ == n);
        }
        if n == s@ {
            assert(after[names.len() as int]@ == n);
        }
    }
    assert(name_set(after) =~= name_set(names).insert(s@));
}

pub proof fn lemma_name_set_add(a: Seq<String>, b: Seq<String>)
    ensures
        name_set(a + b) == name_set(a).union(name_set(b)),
{
    let both = a + b;
    assert forall|n: Seq<char>| name_set(both).contains(n) == name_set(a).union(
        name_set(b),
    ).contains(n) by {
        if listed(both, n, both.len() as int) {
            let i = choose|i: int| 0 <= i < both.len() && (#[trigger] both[i])@ == n;
            if i < a.len() {
                assert(a[i]@ == n);
            } else {
                assert(b[i - a.len()]@ == n);
            }
        }
        if listed(a, n, a.len() as int) {
            let i = choose|i: int| 0 <= i < a.len() && (#[trigger] a[i])@ == n;
            assert(both[i]@ == n);
        }
        if listed(b, n, b.len() as int) {
            let i = choose|i: int| 0 <= i < b.len() && (#[trigger] b[i])@ == n;
            assert(both[i + a.len()]@ == n);
        }
    }
    assert(name_set(both) =~= name_set(a).union(name_set(b)));
}

} // verus!
