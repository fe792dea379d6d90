//! Properties of the guard that span several operations, stated over the
//! filter's view (the set of identifiers it holds) as the operations' own
//! contracts describe it.
use vstd::prelude::*;
use crate::guard::addresses;
use crate::models::AllowlistEntry;

verus! {

/// The filter's contents after a run of `add_user` calls, each given as the
/// identifier and whether its store insertion was committed.
pub open spec fn after_adds(admitted: Set<Seq<char>>, later: Seq<(Seq<char>, bool)>) -> Set<
    Seq<char>,
>
    decreases later.len(),
{
    if later.len() == 0 {
        admitted
    } else {
        let prev = after_adds(admitted, later.drop_last());
        if later.last().1 {
            prev.insert(later.last().0)
        } else {
            prev
        }
    }
}

/// No false negatives: an identifier the filter holds stays held through any
/// further additions, committed or failed, of any identifiers; so `check_access`
/// always sends it on to the store.
pub proof fn lemma_no_false_negatives(
    admitted: Set<Seq<char>>,
    k: Seq<char>,
    later: Seq<(Seq<char>, bool)>,
)
    requires
        admitted.contains(k),
    ensures
        after_adds(admitted, later).contains(k),
    decreases later.len(),
{
    if later.len() > 0 {
        lemma_no_false_negatives(admitted, k, later.drop_last());
    }
}

/// Read-your-writes: once `add_user(k)` has committed, the filter holds `k`
/// whatever other additions follow.
pub proof fn lemma_read_your_writes(
    before: Set<Seq<char>>,
    k: Seq<char>,
    later: Seq<(Seq<char>, bool)>,
)
    ensures
        after_adds(before.insert(k), later).contains(k),
{
    lemma_no_false_negatives(before.insert(k), k, later);
}

/// A hydration swap loses nothing committed: an identifier in the loaded
/// snapshot, or committed while the hydration ran, is in the installed filter.
pub proof fn lemma_rehydration_keeps_committed(
    rows: Seq<AllowlistEntry>,
    pending: Set<Seq<char>>,
    k: Seq<char>,
)
    requires
        addresses(rows).contains(k) || pending.contains(k),
    ensures
        addresses(rows).union(pending).contains(k),
{
}

/// Hydration completeness: after a filter built by `hydrate` from the loaded
/// rows is installed, it holds every loaded identifier.
pub proof fn lemma_hydration_complete(rows: Seq<AllowlistEntry>, pending: Set<Seq<char>>, i: int)
    requires
        0 <= i < rows.len(),
    ensures
        addresses(rows).union(pending).contains(rows[i].wallet_address@),
{
    assert(addresses(rows).contains(rows[i].wallet_address@));
}

/// Inserting an identifier twice leaves the filter as one insertion does,
/// and the identifier stays possibly present.
pub proof fn lemma_insert_idempotent(s: Set<Seq<char>>, k: Seq<char>)
    ensures
        s.insert(k).insert(k) == s.insert(k),
        s.insert(k).insert(k).contains(k),
{
    assert(s.insert(k).insert(k) =~= s.insert(k));
}

} // verus!
