use vstd::prelude::*;
use crate::lookup::LookupError;
use crate::model::{
    DefinitionView, Entry, EntryView, MeaningView, RecordView, record_of, records_of_definitions,
    records_of_meanings, records_of_entries,
};
use crate::search::search_results_of;

verus! {

/// How many definitions the meanings hold together.
pub open spec fn definitions_in_meanings(ms: Seq<MeaningView>) -> nat
    decreases ms.len(),
{
    if ms.len() == 0 {
        0
    } else {
        definitions_in_meanings(ms.drop_last()) + ms.last().definitions.len()
    }
}

/// How many definitions the entries hold together, over all their meanings.
pub open spec fn definitions_in_entries(es: Seq<EntryView>) -> nat
    decreases es.len(),
{
    if es.len() == 0 {
        0
    } else {
        definitions_in_entries(es.drop_last()) + definitions_in_meanings(es.last().meanings)
    }
}

/// Where the record of definition `k` of meaning `j` of entry `i` stands.
pub open spec fn record_position(es: Seq<EntryView>, i: int, j: int, k: int) -> int {
    definitions_in_entries(es.take(i)) + definitions_in_meanings(es[i].meanings.take(j)) + k
}

/// Definition `k` of meaning `j` of entry `i` exists.
pub open spec fn is_definition_index(es: Seq<EntryView>, i: int, j: int, k: int) -> bool {
    &&& 0 <= i < es.len()
    &&& 0 <= j < es[i].meanings.len()
    &&& 0 <= k < es[i].meanings[j].definitions.len()
}

proof fn lemma_definitions(word: Seq<char>, pos: Seq<char>, defs: Seq<DefinitionView>)
    ensures
        records_of_definitions(word, pos, defs).len() == defs.len(),
        forall|k: int|
            0 <= k < defs.len() ==> #[trigger] records_of_definitions(word, pos, defs)[k]
                == record_of(word, pos, defs[k]),
    decreases defs.len(),
{
    if defs.len() > 0 {
        lemma_definitions(word, pos, defs.drop_last());
    }
}

proof fn lemma_meanings_prefix(ms: Seq<MeaningView>, j: int)
    requires
        0 <= j < ms.len(),
    ensures
        definitions_in_meanings(ms.take(j)) + ms[j].definitions.len() <= definitions_in_meanings(
            ms,
        ),
    decreases ms.len(),
{
    if j == ms.len() - 1 {
        assert(ms.take(j) =~= ms.drop_last());
    } else {
        lemma_meanings_prefix(ms.drop_last(), j);
        assert(ms.drop_last().take(j) =~= ms.take(j));
    }
}

proof fn lemma_meanings(word: Seq<char>, ms: Seq<MeaningView>)
    ensures
        records_of_meanings(word, ms).len() == definitions_in_meanings(ms),
        forall|j: int, k: int|
            0 <= j < ms.len() && 0 <= k < ms[j].definitions.len() ==> #[trigger] records_of_meanings(
                word,
                ms,
            )[definitions_in_meanings(ms.take(j)) + k] == record_of(
                word,
                ms[j].part_of_speech,
                ms[j].definitions[k],
            ),
    decreases ms.len(),
{
    if ms.len() > 0 {
        let init = ms.drop_last();
        let m = ms.last();
        lemma_meanings(word, init);
        lemma_definitions(word, m.part_of_speech, m.definitions);
        assert forall|j: int, k: int|
            0 <= j < ms.len() && 0 <= k < ms[j].definitions.len() implies #[trigger] records_of_meanings(
            word,
            ms,
        )[definitions_in_meanings(ms.take(j)) + k] == record_of(
            word,
            ms[j].part_of_speech,
            ms[j].definitions[k],
        ) by {
            if j == ms.len() - 1 {
                assert(ms.take(j) =~= init);
            } else {
                assert(init.take(j) =~= ms.take(j));
                lemma_meanings_prefix(init, j);
                assert(init[j] == ms[j]);
                assert(records_of_meanings(word, init)[definitions_in_meanings(init.take(j)) + k]
                    == record_of(word, init[j].part_of_speech, init[j].definitions[k]));
            }
        }
    }
}

proof fn lemma_entries_prefix(es: Seq<EntryView>, i: int)
    requires
        0 <= i < es.len(),
    ensures
        definitions_in_entries(es.take(i)) + definitions_in_meanings(es[i].meanings)
            <= definitions_in_entries(es),
    decreases es.len(),
{
    if i == es.len() - 1 {
        assert(es.take(i) =~= es.drop_last());
    } else {
        lemma_entries_prefix(es.drop_last(), i);
        assert(es.drop_last().take(i) =~= es.take(i));
    }
}

/// Flattening gives exactly one record per definition, and the record of
/// definition `k` of meaning `j` of entry `i` stands after those of every
/// earlier entry, of every earlier meaning of entry `i`, and of the `k`
/// earlier definitions of meaning `j`.
pub proof fn flatten_count_and_order(es: Seq<EntryView>)
    ensures
        records_of_entries(es).len() == definitions_in_entries(es),
        forall|i: int, j: int, k: int|
            is_definition_index(es, i, j, k) ==> 0 <= #[trigger] record_position(es, i, j, k)
                < records_of_entries(es).len() && records_of_entries(es)[record_position(
                es,
                i,
                j,
                k,
            )] == record_of(
                es[i].word,
                es[i].meanings[j].part_of_speech,
                es[i].meanings[j].definitions[k],
            ),
    decreases es.len(),
{
    if es.len() > 0 {
        let init = es.drop_last();
        let e = es.last();
        flatten_count_and_order(init);
        lemma_meanings(e.word, e.meanings);
        assert forall|i: int, j: int, k: int|
            is_definition_index(es, i, j, k) implies 0 <= #[trigger] record_position(es, i, j, k)
            < records_of_entries(es).len() && records_of_entries(
            es,
        )[record_position(es, i, j, k)] == record_of(
            es[i].word,
            es[i].meanings[j].part_of_speech,
            es[i].meanings[j].definitions[k],
        ) by {
            let ms = es[i].meanings;
            let head = records_of_entries(init);
            let tail = records_of_meanings(e.word, e.meanings);
            assert(records_of_entries(es) == head + tail);
            lemma_meanings_prefix(ms, j);
            if i == es.len() - 1 {
                assert(es.take(i) =~= init);
                let q = definitions_in_meanings(ms.take(j)) + k;
                assert(tail[q] == record_of(
                    e.word,
                    e.meanings[j].part_of_speech,
                    e.meanings[j].definitions[k],
                ));
                assert(q < tail.len());
                assert(head.len() == definitions_in_entries(init));
                assert(record_position(es, i, j, k) == head.len() + q);
                assert((head + tail)[head.len() + q] == tail[q]);
            } else {
                assert(init.take(i) =~= es.take(i));
                lemma_entries_prefix(init, i);
                assert(init[i] == es[i]);
                assert(is_definition_index(init, i, j, k));
                let p = record_position(init, i, j, k);
                assert(p == record_position(es, i, j, k));
                assert(p < head.len());
                assert(p < (head + tail).len());
                assert(head[p] == record_of(
                    init[i].word,
                    init[i].meanings[j].part_of_speech,
                    init[i].meanings[j].definitions[k],
                ));
                assert((head + tail)[p] == head[p]);
            }
        }
    }
}

proof fn lemma_meanings_cover(ms: Seq<MeaningView>, q: int) -> (r: (int, int))
    requires
        0 <= q < definitions_in_meanings(ms),
    ensures
        0 <= r.0 < ms.len(),
        0 <= r.1 < ms[r.0].definitions.len(),
        q == definitions_in_meanings(ms.take(r.0)) + r.1,
    decreases ms.len(),
{
    let init = ms.drop_last();
    if q < definitions_in_meanings(init) {
        let (j, k) = lemma_meanings_cover(init, q);
        assert(init.take(j) =~= ms.take(j));
        (j, k)
    } else {
        let j = ms.len() - 1;
        assert(ms.take(j) =~= init);
        (j, q - definitions_in_meanings(init))
    }
}

/// Every record of a flattening comes from one definition: each position in
/// the output is the position of some definition `(i, j, k)` of the entries.
pub proof fn flatten_covers(es: Seq<EntryView>, p: int) -> (r: (int, int, int))
    requires
        0 <= p < records_of_entries(es).len(),
    ensures
        is_definition_index(es, r.0, r.1, r.2),
        record_position(es, r.0, r.1, r.2) == p,
    decreases es.len(),
{
    flatten_count_and_order(es);
    let init = es.drop_last();
    flatten_count_and_order(init);
    if p < definitions_in_entries(init) {
        let (i, j, k) = flatten_covers(init, p);
        assert(init.take(i) =~= es.take(i));
        assert(init[i] == es[i]);
        (i, j, k)
    } else {
        let i = es.len() - 1;
        assert(es.take(i) =~= init);
        let (j, k) = lemma_meanings_cover(es[i].meanings, p - definitions_in_entries(init));
        (i, j, k)
    }
}

/// Every record of a flattening has clipboard text that starts with the word
/// of some entry followed by `". "`; that entry's index is returned.
pub proof fn every_clipboard_starts_with_a_word(es: Seq<EntryView>, p: int) -> (i: int)
    requires
        0 <= p < records_of_entries(es).len(),
    ensures
        0 <= i < es.len(),
        records_of_entries(es)[p].clipboard_payload.take(es[i].word.len() + 2int) == es[i].word
            + ". "@,
{
    let (i, j, k) = flatten_covers(es, p);
    clipboard_starts_with_word(es, i, j, k);
    i
}

/// Every record's clipboard text starts with the word of its entry and `". "`;
/// where the definition has no example, nothing follows the display text.
pub proof fn clipboard_starts_with_word(es: Seq<EntryView>, i: int, j: int, k: int)
    requires
        is_definition_index(es, i, j, k),
    ensures
        ({
            let r = records_of_entries(es)[record_position(es, i, j, k)];
            let word = es[i].word;
            &&& r.clipboard_payload.take(word.len() + 2int) == word + ". "@
            &&& es[i].meanings[j].definitions[k].example is None ==> r.clipboard_payload == word
                + ". "@ + r.display_text
        }),
{
    flatten_count_and_order(es);
    reveal_strlit(". ");
    let word = es[i].word;
    let d = es[i].meanings[j].definitions[k];
    let r = record_of(word, es[i].meanings[j].part_of_speech, d);
    assert(r.clipboard_payload.take(word.len() + 2int) =~= word + ". "@);
    if d.example is None {
        assert(r.clipboard_payload =~= word + ". "@ + r.display_text);
    }
}

/// A lookup that finds no entries gives a search without records.
pub proof fn no_entries_no_results(es: Seq<Entry>)
    requires
        es.len() == 0,
    ensures
        search_results_of(Ok::<Seq<Entry>, LookupError>(es)).len() == 0,
{
}

/// Flattening depends on the entries alone: two flattenings of the same
/// entries give the same records.
pub proof fn flatten_is_deterministic(es: Seq<EntryView>, a: Seq<RecordView>, b: Seq<RecordView>)
    requires
        a == records_of_entries(es),
        b == records_of_entries(es),
    ensures
        a == b,
{
}

} // verus!
