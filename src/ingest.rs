use vstd::prelude::*;

verus! {

/// What a stored document record holds, as mathematical values.
pub struct RecordModel {
    pub content: Seq<char>,
    pub document_name: Seq<char>,
}

/// A normalized document ready for the store: the extracted text, and the
/// name of the source file under the `document_name` metadata key. Names come
/// from one directory listing, so within a run no two records share one.
#[derive(Clone, Debug, PartialEq, Eq)]
pub struct DocumentRecord {
    pub content: String,
    pub document_name: String,
}

impl View for DocumentRecord {
    type V = RecordModel;

    open spec fn view(&self) -> RecordModel {
        RecordModel { content: self.content@, document_name: self.document_name@ }
    }
}

/// What the text extractor reported for one file.
#[derive(Clone, Debug, PartialEq, Eq)]
pub enum Extraction {
    /// The extractor could not read the file.
    Failed,
    /// The text blocks the extractor produced, in order.
    Blocks(Vec<String>),
}

impl View for Extraction {
    type V = Option<Seq<Seq<char>>>;

    open spec fn view(&self) -> Option<Seq<Seq<char>>> {
        match self {
            Extraction::Failed => None,
            Extraction::Blocks(b) => Some(b.deep_view()),
        }
    }
}

/// Why one file produced no record.
#[derive(Clone, Copy, Debug, PartialEq, Eq)]
pub enum IngestError {
    /// The extractor failed on the file.
    ExtractionFailed,
    /// The extractor produced this many text blocks instead of exactly one.
    BlockCount(usize),
}

/// The outcome of ingesting the file `name` whose extraction gave `ex`.
pub open spec fn ingest_spec(name: Seq<char>, ex: Option<Seq<Seq<char>>>) -> Result<
    RecordModel,
    IngestError,
> {
    match ex {
        None => Err(IngestError::ExtractionFailed),
        Some(blocks) => if blocks.len() == 1 {
            Ok(RecordModel { content: blocks[0], document_name: name })
        } else {
            Err(IngestError::BlockCount(blocks.len() as usize))
        },
    }
}

/// The outcomes of ingesting each file of `names` with the report at the same
/// position of `exs`.
pub open spec fn outcomes_spec(names: Seq<Seq<char>>, exs: Seq<Option<Seq<Seq<char>>>>) -> Seq<
    Result<RecordModel, IngestError>,
> {
    Seq::new(names.len(), |i: int| ingest_spec(names[i], exs[i]))
}

pub open spec fn extraction_models(v: Seq<Extraction>) -> Seq<Option<Seq<Seq<char>>>> {
    v.map_values(|e: Extraction| e@)
}

/// An outcome with its record seen as a model.
pub open spec fn outcome_model(r: Result<DocumentRecord, IngestError>) -> Result<
    RecordModel,
    IngestError,
> {
    match r {
        Ok(d) => Ok(d@),
        Err(e) => Err(e),
    }
}

pub open spec fn outcome_models(v: Seq<Result<DocumentRecord, IngestError>>) -> Seq<
    Result<RecordModel, IngestError>,
> {
    v.map_values(|r: Result<DocumentRecord, IngestError>| outcome_model(r))
}

pub open spec fn record_models(v: Seq<DocumentRecord>) -> Seq<RecordModel> {
    v.map_values(|d: DocumentRecord| d@)
}

/// The record of a successful outcome; nothing for a failed one.
pub open spec fn success_of(r: Result<RecordModel, IngestError>) -> Option<RecordModel> {
    match r {
        Ok(m) => Some(m),
        Err(_) => None,
    }
}

/// The batch for the store: the records of the successful outcomes, in order.
pub open spec fn batch_of(outcomes: Seq<Result<RecordModel, IngestError>>) -> Seq<RecordModel> {
    outcomes.filter_map(|r: Result<RecordModel, IngestError>| success_of(r))
}

/// Turns the extractor's report for the file `name` into a record tagged with
/// that name, or into the reason it produced none. Exactly one text block is
/// expected; any other count is an error for this file alone.
pub fn ingest_file(name: &String, extraction: &Extraction) -> (r: Result<DocumentRecord, IngestError>)
    ensures
        outcome_model(r) == ingest_spec(name@, extraction@),
{
    match extraction {
        Extraction::Failed => Err(IngestError::ExtractionFailed),
        Extraction::Blocks(blocks) => {
            if blocks.len() == 1 {
                let rec = DocumentRecord { content: blocks[0].clone(), document_name: name.clone() };
                Ok(rec)
            } else {
                Err(IngestError::BlockCount(blocks.len()))
            }
        },
    }
}

/// Ingests every file of `names`, the i-th with the i-th extraction report.
/// Each file gets exactly one outcome, which depends on its own report alone.
pub fn ingest_all(names: &Vec<String>, extractions: &Vec<Extraction>) -> (r: Vec<
    Result<DocumentRecord, IngestError>,
>)
    requires
        names.len() == extractions.len(),
    ensures
        outcome_models(r@) == outcomes_spec(names.deep_view(), extraction_models(extractions@)),
{
    let mut out: Vec<Result<DocumentRecord, IngestError>> = Vec::new();
    let mut i: usize = 0;
    while i < names.len()
        invariant
            i <= names.len(),
            names.len() == extractions.len(),
            out.len() == i,
            forall|k: int|
                0 <= k < i ==> outcome_model(#[trigger] out[k]) == ingest_spec(
                    names[k]@,
                    extractions[k]@,
                ),
        decreases names.len() - i,
    {
        let o = ingest_file(&names[i], &extractions[i]);
        out.push(o);
        i += 1;
    }
    proof {
        assert(outcome_models(out@) =~= outcomes_spec(
            names.deep_view(),
            extraction_models(extractions@),
        ));
    }
    out
}

/// Gathers the records of the successful outcomes, in order, dropping every
/// failure. No outcome at all, or only failures, gives an empty batch.
pub fn collect_records(outcomes: Vec<Result<DocumentRecord, IngestError>>) -> (r: Vec<
    DocumentRecord,
>)
    ensures
        record_models(r@) == batch_of(outcome_models(outcomes@)),
{
    let mut out: Vec<DocumentRecord> = Vec::new();
    let mut i: usize = 0;
    while i < outcomes.len()
        invariant
            i <= outcomes.len(),
            record_models(out@) == batch_of(outcome_models(outcomes@.take(i as int))),
        decreases outcomes.len() - i,
    {
        let ghost before = out@;
        match &outcomes[i] {
            Ok(d) => {
                out.push(d.clone_record());
            },
            Err(_) => {},
        }
        proof {
            let next = outcome_models(outcomes@.take(i + 1));
            assert(next.drop_last() =~= outcome_models(outcomes@.take(i as int)));
            assert(next.last() == outcome_model(outcomes@[i as int]));
            match outcomes@[i as int] {
                Ok(d) => {
                    assert(record_models(out@) =~= record_models(before).push(d@));
                },
                Err(_) => {
                    assert(out@ =~= before);
                },
            }
        }
        i += 1;
    }
    proof {
        assert(outcomes@.take(outcomes.len() as int) =~= outcomes@);
    }
    out
}

impl DocumentRecord {
    /// A copy of this record.
    pub fn clone_record(&self) -> (r: DocumentRecord)
        ensures
            r@ == self@,
    {
        DocumentRecord { content: self.content.clone(), document_name: self.document_name.clone() }
    }
}

/// The line shown to the operator once a file has been processed.
pub fn status_line(name: &String, ok: bool) -> (r: String)
    ensures
        r@ == name@ + (if ok {
            " - ✅"@
        } else {
            " - ❌"@
        }),
{
    let mut line = name.clone();
    if ok {
        line.append(" - ✅");
    } else {
        line.append(" - ❌");
    }
    line
}

} // verus!
