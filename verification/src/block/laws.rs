//! What holds of every validation: that it can be repeated, that the final
//! sweep leaves no entry unaccounted for, and that a field is a duplicate
//! only within its own provenance rank.

use vstd::prelude::*;
use crate::block::BlockItem;
use crate::block::validator::{
    Declaration, ValidatorView, duplicate_diags, previous_of_kind, sweep_diags, sweep_entry,
};
use crate::report::{DiagnosticView, ErrorKey};
use crate::token::FileKind;

verus! {

/// What the declarations `declarations` and the final sweep add to what
/// `v` has reported already.
pub open spec fn added(v: ValidatorView, declarations: Seq<Declaration>) -> Seq<DiagnosticView> {
    v.after_all(declarations).finished().skip(v.reported.len() as int)
}

proof fn lemma_after_all_alike(a: ValidatorView, b: ValidatorView, declarations: Seq<Declaration>)
    requires
        a.block == b.block,
        a.localization == b.localization,
        a.claimed == b.claimed,
        a.accepts_tokens == b.accepts_tokens,
        a.accepts_blocks == b.accepts_blocks,
    ensures
        ({
            let x = a.after_all(declarations);
            let y = b.after_all(declarations);
            &&& x.block == a.block
            &&& y.block == a.block
            &&& x.localization == a.localization
            &&& y.localization == a.localization
            &&& x.claimed == y.claimed
            &&& x.accepts_tokens == y.accepts_tokens
            &&& x.accepts_blocks == y.accepts_blocks
            &&& x.reported.len() >= a.reported.len()
            &&& y.reported.len() >= b.reported.len()
            &&& x.reported.take(a.reported.len() as int) == a.reported
            &&& x.reported.skip(a.reported.len() as int) == y.reported.skip(
                b.reported.len() as int,
            )
        }),
    decreases declarations.len(),
{
    if declarations.len() == 0 {
        assert(a.reported.take(a.reported.len() as int) =~= a.reported);
        assert(a.reported.skip(a.reported.len() as int) =~= b.reported.skip(
            b.reported.len() as int,
        ));
    } else {
        let rest = declarations.drop_last();
        lemma_after_all_alike(a, b, rest);
        let x = a.after_all(rest);
        let y = b.after_all(rest);
        let x2 = x.after(declarations.last());
        let y2 = y.after(declarations.last());
        let ka = a.reported.len() as int;
        let kb = b.reported.len() as int;
        assert(x2.reported.take(ka) =~= x.reported.take(ka));
        assert(x2.reported.skip(ka) =~= x.reported.skip(ka) + x2.reported.skip(
            x.reported.len() as int,
        ));
        assert(y2.reported.skip(kb) =~= y.reported.skip(kb) + y2.reported.skip(
            y.reported.len() as int,
        ));
        assert(x2.reported.skip(x.reported.len() as int) =~= y2.reported.skip(
            y.reported.len() as int,
        ));
    }
}

/// Validation can be repeated: two validators of the same block that have
/// heard the same declarations so far add the same reports, in the same
/// order, when both hear `declarations` and make the final sweep, whatever
/// each had reported before. In particular two validations of one block
/// with the same declarations, each begun afresh, report the same multiset.
pub proof fn lemma_validation_repeatable(
    a: ValidatorView,
    b: ValidatorView,
    declarations: Seq<Declaration>,
)
    requires
        a.block == b.block,
        a.localization == b.localization,
        a.claimed == b.claimed,
        a.accepts_tokens == b.accepts_tokens,
        a.accepts_blocks == b.accepts_blocks,
    ensures
        a.after_all(declarations).finished() == a.reported + added(a, declarations),
        b.after_all(declarations).finished() == b.reported + added(b, declarations),
        added(a, declarations) == added(b, declarations),
        added(a, declarations).to_multiset() == added(b, declarations).to_multiset(),
        a.reported == b.reported ==> a.after_all(declarations).finished().to_multiset()
            == b.after_all(declarations).finished().to_multiset(),
{
    lemma_after_all_alike(a, b, declarations);
    lemma_after_all_alike(b, a, declarations);
    let x = a.after_all(declarations);
    let y = b.after_all(declarations);
    let ka = a.reported.len() as int;
    let kb = b.reported.len() as int;
    assert(x.swept() == y.swept());
    assert(x.finished().skip(ka) =~= x.reported.skip(ka) + x.swept());
    assert(y.finished().skip(kb) =~= y.reported.skip(kb) + y.swept());
    assert(x.finished() =~= a.reported + added(a, declarations)) by {
        assert(x.finished().take(ka) =~= x.reported.take(ka));
        assert(x.finished() =~= x.finished().take(ka) + x.finished().skip(ka));
    }
    assert(y.finished() =~= b.reported + added(b, declarations)) by {
        assert(y.finished().take(kb) =~= y.reported.take(kb));
        assert(y.finished() =~= y.finished().take(kb) + y.finished().skip(kb));
    }
}

/// The entry has a key that was declared.
pub open spec fn is_claimed(item: BlockItem, claimed: Set<Seq<char>>) -> bool {
    item.key matches Some(k) && claimed.contains(k.s@)
}

/// The entry is a loose scalar or block of a kind that is expected.
pub open spec fn is_permitted_loose(item: BlockItem, accepts_tokens: bool, accepts_blocks: bool) -> bool {
    item.key is None && if item.value is Value {
        accepts_tokens
    } else {
        accepts_blocks
    }
}

/// The final sweep reports the entry.
pub open spec fn is_reported(
    item: BlockItem,
    claimed: Set<Seq<char>>,
    accepts_tokens: bool,
    accepts_blocks: bool,
) -> bool {
    sweep_entry(item, claimed, accepts_tokens, accepts_blocks).len() == 1
}

proof fn lemma_sweep_contains(
    entries: Seq<BlockItem>,
    claimed: Set<Seq<char>>,
    accepts_tokens: bool,
    accepts_blocks: bool,
    n: int,
    d: DiagnosticView,
)
    requires
        0 <= n <= entries.len(),
    ensures
        sweep_diags(entries, claimed, accepts_tokens, accepts_blocks, n).contains(d) <==> exists|
            i: int,
        |
            0 <= i < n && #[trigger] sweep_entry(
                entries[i],
                claimed,
                accepts_tokens,
                accepts_blocks,
            ).contains(d),
    decreases n,
{
    if n > 0 {
        lemma_sweep_contains(entries, claimed, accepts_tokens, accepts_blocks, n - 1, d);
        let before = sweep_diags(entries, claimed, accepts_tokens, accepts_blocks, n - 1);
        let last = sweep_entry(entries[n - 1], claimed, accepts_tokens, accepts_blocks);
        let all = sweep_diags(entries, claimed, accepts_tokens, accepts_blocks, n);
        assert(all == before + last);
        if all.contains(d) {
            let k = choose|k: int| 0 <= k < all.len() && all[k] == d;
            if k < before.len() {
                assert(before[k] == d);
                assert(before.contains(d));
            } else {
                assert(last[k - before.len()] == d);
                assert(last.contains(d));
            }
        }
        if before.contains(d) {
            let k = choose|k: int| 0 <= k < before.len() && before[k] == d;
            assert(all[k] == d);
        }
        if last.contains(d) {
            let k = choose|k: int| 0 <= k < last.len() && last[k] == d;
            assert(all[before.len() + k] == d);
        }
    } else {
        let none = sweep_diags(entries, claimed, accepts_tokens, accepts_blocks, n);
        assert(none.len() == 0);
    }
}

/// The final sweep leaves no entry unaccounted for: each entry of the
/// block either has a declared key, or is a loose entry of an expected
/// kind, or is reported, and it is exactly one of the three. What is
/// reported of it is in the reports of the sweep, at the entry's own place.
pub proof fn lemma_sweep_exhaustive(v: ValidatorView, i: int)
    requires
        0 <= i < v.entries().len(),
    ensures
        ({
            let item = v.entries()[i];
            let claimed = is_claimed(item, v.claimed);
            let permitted = is_permitted_loose(item, v.accepts_tokens, v.accepts_blocks);
            let reported = is_reported(item, v.claimed, v.accepts_tokens, v.accepts_blocks);
            let found = sweep_entry(item, v.claimed, v.accepts_tokens, v.accepts_blocks);
            &&& claimed || permitted || reported
            &&& !(claimed && permitted) && !(claimed && reported) && !(permitted && reported)
            &&& reported ==> v.swept().contains(found[0]) && found[0].loc == (match item.key {
                Some(k) => k.loc,
                None => item.value.spec_loc(),
            }) && (found[0].key == ErrorKey::UnknownField || found[0].key
                == ErrorKey::MisplacedValue || found[0].key == ErrorKey::MisplacedBlock)
            &&& !reported ==> found.len() == 0
        }),
{
    let item = v.entries()[i];
    let found = sweep_entry(item, v.claimed, v.accepts_tokens, v.accepts_blocks);
    if found.len() == 1 {
        assert(found.contains(found[0]));
        lemma_sweep_contains(
            v.entries(),
            v.claimed,
            v.accepts_tokens,
            v.accepts_blocks,
            v.entries().len() as int,
            found[0],
        );
    }
}

/// The final sweep reports nothing else: each of its reports is the one
/// report of an entry that is neither declared nor expected.
pub proof fn lemma_sweep_reports_entries(v: ValidatorView, d: DiagnosticView)
    requires
        v.swept().contains(d),
    ensures
        exists|i: int|
            0 <= i < v.entries().len() && is_reported(
                #[trigger] v.entries()[i],
                v.claimed,
                v.accepts_tokens,
                v.accepts_blocks,
            ) && sweep_entry(v.entries()[i], v.claimed, v.accepts_tokens, v.accepts_blocks)[0]
                == d,
{
    lemma_sweep_contains(
        v.entries(),
        v.claimed,
        v.accepts_tokens,
        v.accepts_blocks,
        v.entries().len() as int,
        d,
    );
    let i = choose|i: int|
        0 <= i < v.entries().len() && #[trigger] sweep_entry(
            v.entries()[i],
            v.claimed,
            v.accepts_tokens,
            v.accepts_blocks,
        ).contains(d);
    let found = sweep_entry(v.entries()[i], v.claimed, v.accepts_tokens, v.accepts_blocks);
    let k = choose|k: int| 0 <= k < found.len() && found[k] == d;
    assert(found.len() == 1);
    assert(is_reported(v.entries()[i], v.claimed, v.accepts_tokens, v.accepts_blocks));
}

proof fn lemma_previous_of_kind(entries: Seq<BlockItem>, name: Seq<char>, kind: FileKind, n: int)
    requires
        0 <= n <= entries.len(),
    ensures
        previous_of_kind(entries, name, kind, n) is Some <==> exists|j: int|
            0 <= j < n && (#[trigger] entries[j]).has_key(name) && entries[j].key->0.loc.kind
                == kind,
        previous_of_kind(entries, name, kind, n) matches Some(loc) ==> loc.kind == kind,
    decreases n,
{
    if n > 0 {
        lemma_previous_of_kind(entries, name, kind, n - 1);
        if entries[n - 1].has_key(name) && entries[n - 1].key->0.loc.kind == kind {
        } else {
            if exists|j: int|
                0 <= j < n && (#[trigger] entries[j]).has_key(name) && entries[j].key->0.loc.kind
                    == kind {
                let j = choose|j: int|
                    0 <= j < n && (#[trigger] entries[j]).has_key(name)
                        && entries[j].key->0.loc.kind == kind;
                assert(j < n - 1);
            }
        }
    }
}

/// A field is a duplicate only within its own provenance rank: entry `i`
/// with the key `name` is reported as a duplicate exactly where an earlier
/// entry with that key has the same rank, and the report points at an entry
/// of that rank. An entry of a lower rank never makes one of a higher rank
/// a duplicate, nor one of a higher rank one of a lower rank.
pub proof fn lemma_duplicate_precedence(entries: Seq<BlockItem>, name: Seq<char>, i: int)
    requires
        0 <= i < entries.len(),
        entries[i].has_key(name),
    ensures
        ({
            let key = entries[i].key->0;
            let found = duplicate_diags(entries, name, i);
            &&& found.len() <= 1
            &&& found.len() == 1 <==> exists|j: int|
                0 <= j < i && (#[trigger] entries[j]).has_key(name)
                    && entries[j].key->0.loc.kind.rank() == key.loc.kind.rank()
            &&& found.len() == 1 ==> found[0].key == ErrorKey::DuplicateField && found[0].loc
                == key.loc && found[0].related is Some && found[0].related->0.kind.rank()
                == key.loc.kind.rank()
        }),
{
    let key = entries[i].key->0;
    lemma_previous_of_kind(entries, name, key.loc.kind, i);
    if exists|j: int|
        0 <= j < i && (#[trigger] entries[j]).has_key(name) && entries[j].key->0.loc.kind.rank()
            == key.loc.kind.rank() {
        let j = choose|j: int|
            0 <= j < i && (#[trigger] entries[j]).has_key(name)
                && entries[j].key->0.loc.kind.rank() == key.loc.kind.rank();
        assert(entries[j].key->0.loc.kind == key.loc.kind);
    }
    if previous_of_kind(entries, name, key.loc.kind, i) is Some {
        let j = choose|j: int|
            0 <= j < i && (#[trigger] entries[j]).has_key(name) && entries[j].key->0.loc.kind
                == key.loc.kind;
        assert(entries[j].key->0.loc.kind.rank() == key.loc.kind.rank());
    }
}

} // verus!
