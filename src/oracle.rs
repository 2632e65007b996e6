use vstd::prelude::*;
use crate::ingest::{DocumentRecord, RecordModel, record_models};

verus! {

/// How many records of `store` carry `name` as their `document_name`.
pub open spec fn match_count(store: Seq<RecordModel>, name: Seq<char>) -> nat
    decreases store.len(),
{
    if store.len() == 0 {
        0
    } else {
        match_count(store.drop_last(), name) + if store.last().document_name == name {
            1nat
        } else {
            0nat
        }
    }
}

/// Whether `store` already holds a record for the file `name`.
pub open spec fn is_stored(store: Seq<RecordModel>, name: Seq<char>) -> bool {
    exists|i: int| 0 <= i < store.len() && (#[trigger] store[i]).document_name == name
}

/// The candidates whose lookup found no match: `counts[i]` is the number of
/// stored records found for `cands[i]`.
pub open spec fn unmatched(cands: Seq<Seq<char>>, counts: Seq<usize>) -> Seq<Seq<char>>
    decreases cands.len(),
{
    if cands.len() == 0 || counts.len() != cands.len() {
        Seq::empty()
    } else {
        let rest = unmatched(cands.drop_last(), counts.drop_last());
        if counts.last() == 0 {
            rest.push(cands.last())
        } else {
            rest
        }
    }
}

/// The candidates that `store` holds no record for, in order.
pub open spec fn pending_in(store: Seq<RecordModel>, cands: Seq<Seq<char>>) -> Seq<Seq<char>> {
    cands.filter(|n: Seq<char>| !is_stored(store, n))
}

/// A file needs ingestion exactly when the lookup of its name found nothing.
pub fn needs_ingestion(match_count: usize) -> (r: bool)
    ensures
        r == (match_count == 0),
{
    match_count == 0
}

/// The point lookup of the existence check, on records held in memory: how
/// many of them carry `name` as their `document_name`.
pub fn count_matches(store: &Vec<DocumentRecord>, name: &String) -> (r: usize)
    ensures
        r == match_count(record_models(store@), name@),
{
    let mut n: usize = 0;
    let mut i: usize = 0;
    while i < store.len()
        invariant
            i <= store.len(),
            n == match_count(record_models(store@).take(i as int), name@),
            n <= i,
        decreases store.len() - i,
    {
        proof {
            let next = record_models(store@).take(i + 1);
            assert(next.drop_last() =~= record_models(store@).take(i as int));
        }
        if store[i].document_name == *name {
            n += 1;
        }
        i += 1;
    }
    proof {
        assert(record_models(store@).take(store.len() as int) =~= record_models(store@));
    }
    n
}

/// Keeps the candidates whose lookup found no stored record, in order;
/// `match_counts[i]` is the number of matches found for `candidates[i]`.
///
/// The lookups and the later store write are not one atomic step: two runs
/// started at the same time over the same new file may both ingest it. Runs
/// are meant to be made one after another.
pub fn select_pending(candidates: &Vec<String>, match_counts: &Vec<usize>) -> (r: Vec<String>)
    requires
        candidates.len() == match_counts.len(),
    ensures
        r.deep_view() == unmatched(candidates.deep_view(), match_counts@),
{
    let mut out: Vec<String> = Vec::new();
    let mut i: usize = 0;
    while i < candidates.len()
        invariant
            i <= candidates.len(),
            candidates.len() == match_counts.len(),
            out.deep_view() == unmatched(
                candidates.deep_view().take(i as int),
                match_counts@.take(i as int),
            ),
        decreases candidates.len() - i,
    {
        let ghost before = out.deep_view();
        if needs_ingestion(match_counts[i]) {
            out.push(candidates[i].clone());
        }
        proof {
            let c = candidates.deep_view().take(i + 1);
            let m = match_counts@.take(i + 1);
            assert(c.drop_last() =~= candidates.deep_view().take(i as int));
            assert(m.drop_last() =~= match_counts@.take(i as int));
            if match_counts[i as int] == 0 {
                assert(out.deep_view() =~= before.push(candidates[i as int]@));
            } else {
                assert(out.deep_view() =~= before);
            }
        }
        i += 1;
    }
    proof {
        assert(candidates.deep_view().take(candidates.len() as int) =~= candidates.deep_view());
        assert(match_counts@.take(candidates.len() as int) =~= match_counts@);
    }
    out
}

} // verus!
