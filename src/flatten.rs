use vstd::prelude::*;
use vstd::string::StringExecFns;
use crate::model::{
    Definition, Meaning, Entry, ResultRecord, record_of, records_view, entries_view,
    records_of_definitions, records_of_meanings, records_of_entries,
};

verus! {

/// Builds the record of one definition of `word` under the part of speech `pos`.
pub fn make_record(word: &str, pos: &str, d: &Definition) -> (r: ResultRecord)
    ensures
        r@ == record_of(word@, pos@, d@),
{
    let mut display_text = String::from_str(pos);
    display_text.append(": ");
    display_text.append(d.definition.as_str());
    let mut clipboard_payload = String::from_str(word);
    clipboard_payload.append(". ");
    clipboard_payload.append(display_text.as_str());
    let ghost head = clipboard_payload@;
    let context = match &d.example {
        Some(e) => {
            clipboard_payload.append("\n");
            clipboard_payload.append(e.as_str());
            proof {
                assert(clipboard_payload@ =~= head + ("\n"@ + e@));
            }
            e.clone()
        },
        None => {
            assert(clipboard_payload@ =~= head + Seq::<char>::empty());
            String::new()
        },
    };
    ResultRecord { display_text, context, clipboard_payload }
}

/// Appends the records of every definition of `m`, in order.
pub fn push_meaning_records(out: &mut Vec<ResultRecord>, word: &str, m: &Meaning)
    ensures
        records_view(final(out)@) == records_view(old(out)@) + records_of_definitions(
            word@,
            m@.part_of_speech,
            m@.definitions,
        ),
{
    let ghost start = records_view(out@);
    let ghost defs = m@.definitions;
    let mut k: usize = 0;
    while k < m.definitions.len()
        invariant
            0 <= k <= m.definitions.len(),
            defs == m@.definitions,
            records_view(out@) == start + records_of_definitions(
                word@,
                m@.part_of_speech,
                defs.take(k as int),
            ),
        decreases m.definitions.len() - k,
    {
        let r = make_record(word, m.part_of_speech.as_str(), &m.definitions[k]);
        let ghost before = out@;
        out.push(r);
        proof {
            assert(defs.take(k + 1).drop_last() =~= defs.take(k as int));
            assert(records_view(out@) =~= records_view(before).push(r@));
        }
        k = k + 1;
    }
    proof {
        assert(defs.take(k as int) =~= defs);
    }
}

/// Appends the records of every meaning of `e`, in order.
pub fn push_entry_records(out: &mut Vec<ResultRecord>, e: &Entry)
    ensures
        records_view(final(out)@) == records_view(old(out)@) + records_of_meanings(
            e@.word,
            e@.meanings,
        ),
{
    let ghost start = records_view(out@);
    let ghost ms = e@.meanings;
    let mut j: usize = 0;
    while j < e.meanings.len()
        invariant
            0 <= j <= e.meanings.len(),
            ms == e@.meanings,
            records_view(out@) == start + records_of_meanings(e@.word, ms.take(j as int)),
        decreases e.meanings.len() - j,
    {
        push_meaning_records(out, e.word.as_str(), &e.meanings[j]);
        proof {
            assert(ms.take(j + 1).drop_last() =~= ms.take(j as int));
            assert(ms.take(j + 1).last() == ms[j as int]);
        }
        j = j + 1;
    }
    proof {
        assert(ms.take(j as int) =~= ms);
    }
}

/// Flattens entries into one record per definition, keeping the order of
/// entries, then meanings, then definitions. Nothing is merged or dropped.
pub fn flatten(entries: &Vec<Entry>) -> (r: Vec<ResultRecord>)
    ensures
        records_view(r@) == records_of_entries(entries_view(entries@)),
{
    let ghost es = entries_view(entries@);
    let mut out: Vec<ResultRecord> = Vec::new();
    let mut i: usize = 0;
    proof {
        assert(records_view(out@) =~= Seq::empty());
        assert(es.take(0) =~= Seq::empty());
    }
    while i < entries.len()
        invariant
            0 <= i <= entries.len(),
            es == entries_view(entries@),
            records_view(out@) == records_of_entries(es.take(i as int)),
        decreases entries.len() - i,
    {
        push_entry_records(&mut out, &entries[i]);
        proof {
            assert(es.take(i + 1).drop_last() =~= es.take(i as int));
            assert(es.take(i + 1).last() == es[i as int]);
        }
        i = i + 1;
    }
    proof {
        assert(es.take(i as int) =~= es);
    }
    out
}

} // verus!
