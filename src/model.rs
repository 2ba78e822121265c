use vstd::prelude::*;

verus! {

/// One sense of a word, with an optional usage example.
#[derive(Debug, PartialEq, Eq)]
pub struct Definition {
    pub definition: String,
    pub example: Option<String>,
}

/// The senses of a word under one part of speech.
#[derive(Debug, PartialEq, Eq)]
pub struct Meaning {
    pub part_of_speech: String,
    pub definitions: Vec<Definition>,
}

/// One headword as returned by the lookup service.
#[derive(Debug, PartialEq, Eq)]
pub struct Entry {
    pub word: String,
    pub meanings: Vec<Meaning>,
}

/// One displayable row produced from a definition.
#[derive(Debug, PartialEq, Eq)]
pub struct ResultRecord {
    pub display_text: String,
    pub context: String,
    pub clipboard_payload: String,
}

pub ghost struct DefinitionView {
    pub definition: Seq<char>,
    pub example: Option<Seq<char>>,
}

pub ghost struct MeaningView {
    pub part_of_speech: Seq<char>,
    pub definitions: Seq<DefinitionView>,
}

pub ghost struct EntryView {
    pub word: Seq<char>,
    pub meanings: Seq<MeaningView>,
}

pub ghost struct RecordView {
    pub display_text: Seq<char>,
    pub context: Seq<char>,
    pub clipboard_payload: Seq<char>,
}

pub open spec fn opt_view(o: Option<String>) -> Option<Seq<char>> {
    match o {
        Some(s) => Some(s@),
        None => None,
    }
}

impl View for Definition {
    type V = DefinitionView;

    open spec fn view(&self) -> DefinitionView {
        DefinitionView { definition: self.definition@, example: opt_view(self.example) }
    }
}

impl View for Meaning {
    type V = MeaningView;

    open spec fn view(&self) -> MeaningView {
        MeaningView {
            part_of_speech: self.part_of_speech@,
            definitions: self.definitions@.map_values(|d: Definition| d@),
        }
    }
}

impl View for Entry {
    type V = EntryView;

    open spec fn view(&self) -> EntryView {
        EntryView { word: self.word@, meanings: self.meanings@.map_values(|m: Meaning| m@) }
    }
}

impl View for ResultRecord {
    type V = RecordView;

    open spec fn view(&self) -> RecordView {
        RecordView {
            display_text: self.display_text@,
            context: self.context@,
            clipboard_payload: self.clipboard_payload@,
        }
    }
}

pub open spec fn entries_view(es: Seq<Entry>) -> Seq<EntryView> {
    es.map_values(|e: Entry| e@)
}

pub open spec fn records_view(rs: Seq<ResultRecord>) -> Seq<RecordView> {
    rs.map_values(|r: ResultRecord| r@)
}

/// `"{part_of_speech}: {definition}"`
pub open spec fn display_text_of(pos: Seq<char>, def: Seq<char>) -> Seq<char> {
    pos + ": "@ + def
}

/// The example text, or nothing when there is none.
pub open spec fn context_of(example: Option<Seq<char>>) -> Seq<char> {
    match example {
        Some(e) => e,
        None => Seq::empty(),
    }
}

/// A newline followed by the example, or nothing when there is none.
pub open spec fn example_suffix(example: Option<Seq<char>>) -> Seq<char> {
    match example {
        Some(e) => "\n"@ + e,
        None => Seq::empty(),
    }
}

/// `"{word}. {part_of_speech}: {definition}"`, then the example on a line of its own.
pub open spec fn clipboard_of(word: Seq<char>, pos: Seq<char>, d: DefinitionView) -> Seq<char> {
    word + ". "@ + display_text_of(pos, d.definition) + example_suffix(d.example)
}

pub open spec fn record_of(word: Seq<char>, pos: Seq<char>, d: DefinitionView) -> RecordView {
    RecordView {
        display_text: display_text_of(pos, d.definition),
        context: context_of(d.example),
        clipboard_payload: clipboard_of(word, pos, d),
    }
}

/// The records of the first `n` definitions of a meaning.
pub open spec fn records_of_definitions(
    word: Seq<char>,
    pos: Seq<char>,
    defs: Seq<DefinitionView>,
) -> Seq<RecordView>
    decreases defs.len(),
{
    if defs.len() == 0 {
        Seq::empty()
    } else {
        records_of_definitions(word, pos, defs.drop_last()).push(record_of(word, pos, defs.last()))
    }
}

pub open spec fn records_of_meanings(word: Seq<char>, ms: Seq<MeaningView>) -> Seq<RecordView>
    decreases ms.len(),
{
    if ms.len() == 0 {
        Seq::empty()
    } else {
        records_of_meanings(word, ms.drop_last()) + records_of_definitions(
            word,
            ms.last().part_of_speech,
            ms.last().definitions,
        )
    }
}

/// The records of a sequence of entries: entries, then meanings, then
/// definitions, each in the order given, one record per definition.
pub open spec fn records_of_entries(es: Seq<EntryView>) -> Seq<RecordView>
    decreases es.len(),
{
    if es.len() == 0 {
        Seq::empty()
    } else {
        records_of_entries(es.drop_last()) + records_of_meanings(
            es.last().word,
            es.last().meanings,
        )
    }
}

} // verus!
