use vstd::prelude::*;
use crate::ingest::{IngestError, RecordModel, batch_of, ingest_spec, outcomes_spec, success_of};
use crate::oracle::{is_stored, match_count, pending_in, unmatched};
use crate::scan::pdf_candidates;

verus! {

/// The outcomes of one run over the directory listing `dir` against `store`,
/// where `extract` gives what the extractor reports for each file name.
pub open spec fn run_outcomes(
    store: Seq<RecordModel>,
    dir: Seq<Seq<char>>,
    extract: spec_fn(Seq<char>) -> Option<Seq<Seq<char>>>,
) -> Seq<Result<RecordModel, IngestError>> {
    pending_in(store, pdf_candidates(dir)).map_values(|n: Seq<char>| ingest_spec(n, extract(n)))
}

/// The records that one run writes to the store.
pub open spec fn new_records(
    store: Seq<RecordModel>,
    dir: Seq<Seq<char>>,
    extract: spec_fn(Seq<char>) -> Option<Seq<Seq<char>>>,
) -> Seq<RecordModel> {
    batch_of(run_outcomes(store, dir, extract))
}

/// Whether an extraction report is a usable one: exactly one text block.
pub open spec fn is_single_block(ex: Option<Seq<Seq<char>>>) -> bool {
    ex is Some && ex->0.len() == 1
}

/// Each file's outcome depends on its own name and report alone: changing the
/// report of any other file leaves it as it was.
pub proof fn lemma_outcome_independent(
    names: Seq<Seq<char>>,
    exs1: Seq<Option<Seq<Seq<char>>>>,
    exs2: Seq<Option<Seq<Seq<char>>>>,
    i: int,
)
    requires
        0 <= i < names.len(),
        exs1[i] == exs2[i],
    ensures
        outcomes_spec(names, exs1)[i] == outcomes_spec(names, exs2)[i],
        outcomes_spec(names, exs1)[i] is Ok <==> is_single_block(exs1[i]),
{
}

/// A report with zero or several text blocks makes that file a failure,
/// recorded with the number of blocks, while every file still gets its outcome.
pub proof fn lemma_wrong_block_count_recorded(
    names: Seq<Seq<char>>,
    exs: Seq<Option<Seq<Seq<char>>>>,
    i: int,
)
    requires
        0 <= i < names.len(),
        exs[i] is Some,
        exs[i]->0.len() != 1,
    ensures
        outcomes_spec(names, exs).len() == names.len(),
        outcomes_spec(names, exs)[i] == Err::<RecordModel, IngestError>(
            IngestError::BlockCount(exs[i]->0.len() as usize),
        ),
{
}

/// The batch holds one record for each file whose report has exactly one
/// block, whatever the other files gave: among files with one usable report
/// each and one that fails, all the usable ones come through.
pub proof fn lemma_success_count(names: Seq<Seq<char>>, exs: Seq<Option<Seq<Seq<char>>>>)
    requires
        names.len() == exs.len(),
    ensures
        batch_of(outcomes_spec(names, exs)).len() == exs.filter(
            |e: Option<Seq<Seq<char>>>| is_single_block(e),
        ).len(),
    decreases names.len(),
{
    reveal(Seq::filter);
    if names.len() > 0 {
        let n = names.drop_last();
        let e = exs.drop_last();
        assert(outcomes_spec(names, exs).drop_last() =~= outcomes_spec(n, e));
        lemma_success_count(n, e);
    }
}

/// A record is in the batch exactly when some outcome succeeded with it.
pub proof fn lemma_batch_exact(outcomes: Seq<Result<RecordModel, IngestError>>, rec: RecordModel)
    ensures
        batch_of(outcomes).contains(rec) <==> outcomes.contains(Ok(rec)),
    decreases outcomes.len(),
{
    if outcomes.len() > 0 {
        let rest = outcomes.drop_last();
        lemma_batch_exact(rest, rec);
        if rest.contains(Ok(rec)) {
            let k = choose|k: int| 0 <= k < rest.len() && rest[k] == Ok::<RecordModel, IngestError>(rec);
            assert(outcomes[k] == rest[k]);
        }
        if outcomes.contains(Ok(rec)) {
            let k = choose|k: int| 0 <= k < outcomes.len() && outcomes[k] == Ok::<RecordModel, IngestError>(rec);
            if k < rest.len() {
                assert(rest[k] == outcomes[k]);
            }
        }
        let b = batch_of(rest);
        match success_of(outcomes.last()) {
            Some(m) => {
                assert(batch_of(outcomes) == b + seq![m]);
                if b.contains(rec) {
                    let k = choose|k: int| 0 <= k < b.len() && b[k] == rec;
                    assert((b + seq![m])[k] == rec);
                }
                if m == rec {
                    assert((b + seq![m])[b.len() as int] == rec);
                }
                if (b + seq![m]).contains(rec) {
                    let k = choose|k: int| 0 <= k < b.len() + 1 && (b + seq![m])[k] == rec;
                    if k < b.len() {
                        assert(b[k] == rec);
                    }
                }
            },
            None => {},
        }
    }
}

/// Where every outcome is a failure the batch is empty: the store write is
/// then a write of nothing.
pub proof fn lemma_all_failures_empty_batch(outcomes: Seq<Result<RecordModel, IngestError>>)
    requires
        forall|i: int| 0 <= i < outcomes.len() ==> (#[trigger] outcomes[i]) is Err,
    ensures
        batch_of(outcomes) == Seq::<RecordModel>::empty(),
    decreases outcomes.len(),
{
    if outcomes.len() > 0 {
        let rest = outcomes.drop_last();
        assert forall|i: int| 0 <= i < rest.len() implies (#[trigger] rest[i]) is Err by {
            assert(rest[i] == outcomes[i]);
        }
        lemma_all_failures_empty_batch(rest);
        assert(outcomes[outcomes.len() - 1] is Err);
    }
}

/// A lookup finds a match for `name` exactly when the store holds a record
/// for it.
pub proof fn lemma_match_count_stored(store: Seq<RecordModel>, name: Seq<char>)
    ensures
        (match_count(store, name) > 0) == is_stored(store, name),
    decreases store.len(),
{
    if store.len() > 0 {
        let rest = store.drop_last();
        lemma_match_count_stored(rest, name);
        if is_stored(rest, name) {
            let k = choose|k: int| 0 <= k < rest.len() && (#[trigger] rest[k]).document_name == name;
            assert(store[k] == rest[k]);
        }
        if is_stored(store, name) {
            let k = choose|k: int| 0 <= k < store.len() && (#[trigger] store[k]).document_name == name;
            if k < rest.len() {
                assert(rest[k] == store[k]);
            }
        }
        if store.last().document_name == name {
            assert(store[store.len() - 1].document_name == name);
        }
    }
}

/// Where each count is what the lookup of its candidate finds in `store`,
/// the files selected for ingestion are exactly the candidates that `store`
/// holds no record for: a file already stored is never extracted or written
/// again.
pub proof fn lemma_stored_files_skipped(
    store: Seq<RecordModel>,
    cands: Seq<Seq<char>>,
    counts: Seq<usize>,
)
    requires
        counts.len() == cands.len(),
        forall|i: int| 0 <= i < cands.len() ==> #[trigger] counts[i] == match_count(store, cands[i]),
    ensures
        unmatched(cands, counts) == pending_in(store, cands),
        forall|n: Seq<char>| #[trigger] unmatched(cands, counts).contains(n) ==> !is_stored(store, n),
    decreases cands.len(),
{
    reveal(Seq::filter);
    let p = |n: Seq<char>| !is_stored(store, n);
    if cands.len() > 0 {
        let c = cands.drop_last();
        let k = counts.drop_last();
        assert forall|i: int| 0 <= i < c.len() implies #[trigger] k[i] == match_count(store, c[i]) by {
            assert(k[i] == counts[i] && c[i] == cands[i]);
        }
        lemma_stored_files_skipped(store, c, k);
        lemma_match_count_stored(store, cands.last());
        assert(counts.last() == match_count(store, cands[cands.len() - 1]));
    }
    assert forall|n: Seq<char>| #[trigger] unmatched(cands, counts).contains(n) implies !is_stored(
        store,
        n,
    ) by {
        let f = cands.filter(p);
        let j = choose|j: int| 0 <= j < f.len() && f[j] == n;
        cands.lemma_filter_pred(p, j);
    }
}

/// Running twice over an unchanged directory, with the extractor reporting
/// the same for each file and no other writer, the second run writes nothing.
pub proof fn lemma_second_run_adds_nothing(
    store: Seq<RecordModel>,
    dir: Seq<Seq<char>>,
    extract: spec_fn(Seq<char>) -> Option<Seq<Seq<char>>>,
)
    ensures
        new_records(store + new_records(store, dir, extract), dir, extract) == Seq::<
            RecordModel,
        >::empty(),
{
    let cands = pdf_candidates(dir);
    let first = run_outcomes(store, dir, extract);
    let batch = batch_of(first);
    let store2 = store + batch;
    let pend1 = pending_in(store, cands);
    let pend2 = pending_in(store2, cands);
    let second = run_outcomes(store2, dir, extract);
    let p1 = |n: Seq<char>| !is_stored(store, n);
    let p2 = |n: Seq<char>| !is_stored(store2, n);
    assert forall|j: int| 0 <= j < second.len() implies (#[trigger] second[j]) is Err by {
        let n = pend2[j];
        cands.lemma_filter_pred(p2, j);
        assert(pend2.contains(n));
        cands.lemma_filter_contains_rev(p2, n);
        let i = choose|i: int| 0 <= i < cands.len() && cands[i] == n;
        if second[j] is Ok {
            let rec = second[j]->Ok_0;
            assert(second[j] == ingest_spec(n, extract(n)));
            assert(rec.document_name == n);
            if is_stored(store, n) {
                let k = choose|k: int| 0 <= k < store.len() && (#[trigger] store[k]).document_name == n;
                assert(store2[k] == store[k]);
            }
            cands.lemma_filter_contains(p1, i);
            let m = choose|m: int| 0 <= m < pend1.len() && pend1[m] == n;
            assert(first[m] == ingest_spec(n, extract(n)));
            assert(first.contains(Ok(rec)));
            lemma_batch_exact(first, rec);
            let b = choose|b: int| 0 <= b < batch.len() && batch[b] == rec;
            assert(store2[store.len() + b] == rec);
        }
    }
    lemma_all_failures_empty_batch(second);
}

} // verus!
