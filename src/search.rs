use vstd::prelude::*;
use crate::flatten::flatten;
use crate::lookup::LookupError;
use crate::model::{Entry, RecordView, ResultRecord, entries_view, records_of_entries, records_view};

verus! {

/// What a search shows for the outcome of its lookup: the flattened records
/// of the entries found, or no records when the lookup failed.
pub open spec fn search_results_of(outcome: Result<Seq<Entry>, LookupError>) -> Seq<RecordView> {
    match outcome {
        Ok(es) => records_of_entries(entries_view(es)),
        Err(_) => Seq::empty(),
    }
}

pub open spec fn outcome_view(outcome: &Result<Vec<Entry>, LookupError>) -> Result<
    Seq<Entry>,
    LookupError,
> {
    match outcome {
        Ok(es) => Ok(es@),
        Err(e) => Err(*e),
    }
}

/// The records that a search yields once its lookup has come back. A failed
/// lookup gives no records; the caller reports its cause.
pub fn search_results(outcome: &Result<Vec<Entry>, LookupError>) -> (r: Vec<ResultRecord>)
    ensures
        records_view(r@) == search_results_of(outcome_view(outcome)),
{
    match outcome {
        Ok(entries) => flatten(entries),
        Err(_) => {
            let r: Vec<ResultRecord> = Vec::new();
            assert(records_view(r@) =~= Seq::empty());
            r
        },
    }
}

/// The text that selecting `record` puts on the clipboard.
pub fn clipboard_text(record: &ResultRecord) -> (r: &str)
    ensures
        r@ == record.clipboard_payload@,
{
    record.clipboard_payload.as_str()
}

/// The name under which the dictionary is shown.
pub fn display_name() -> (r: &'static str)
    ensures
        r@ == "English Dictionary"@,
{
    "English Dictionary"
}

} // verus!
