use english_dictionary::flatten::{flatten, make_record};
use english_dictionary::lookup::{lookup_url, LookupError};
use english_dictionary::model::{Definition, Entry, Meaning, ResultRecord};
use english_dictionary::search::{clipboard_text, display_name, search_results};

fn def(text: &str, example: Option<&str>) -> Definition {
    Definition { definition: text.to_string(), example: example.map(|e| e.to_string()) }
}

fn meaning(pos: &str, definitions: Vec<Definition>) -> Meaning {
    Meaning { part_of_speech: pos.to_string(), definitions }
}

fn entry(word: &str, meanings: Vec<Meaning>) -> Entry {
    Entry { word: word.to_string(), meanings }
}

fn sample() -> Vec<Entry> {
    vec![
        entry(
            "run",
            vec![
                meaning("verb", vec![def("move fast", Some("He ran home.")), def("operate", None)]),
                meaning("noun", vec![def("a jog", None)]),
            ],
        ),
        entry("runs", vec![meaning("noun", vec![]), meaning("noun", vec![def("diarrhoea", None)])]),
    ]
}

#[test]
fn run_scenario_yields_one_record() {
    let entries = vec![entry("run", vec![meaning("verb", vec![def("move fast", Some("He ran home."))])])];
    let records = search_results(&Ok(entries));
    assert_eq!(records.len(), 1);
    assert_eq!(records[0].display_text, "verb: move fast");
    assert_eq!(records[0].context, "He ran home.");
    assert_eq!(records[0].clipboard_payload, "run. verb: move fast\nHe ran home.");
}

#[test]
fn failed_lookup_yields_no_records() {
    let outcome: Result<Vec<Entry>, LookupError> =
        Err(LookupError::new("error decoding response body".to_string()));
    assert!(search_results(&outcome).is_empty());
}

#[test]
fn zero_entries_yield_no_records() {
    assert!(search_results(&Ok(vec![])).is_empty());
    let no_definitions = vec![entry("x", vec![meaning("noun", vec![])]), entry("y", vec![])];
    assert!(search_results(&Ok(no_definitions)).is_empty());
}

#[test]
fn flatten_gives_one_record_per_definition_in_order() {
    let records = flatten(&sample());
    let titles: Vec<&str> = records.iter().map(|r| r.display_text.as_str()).collect();
    assert_eq!(titles, vec!["verb: move fast", "verb: operate", "noun: a jog", "noun: diarrhoea"]);
    assert_eq!(records[3].clipboard_payload, "runs. noun: diarrhoea");
}

#[test]
fn duplicate_definitions_are_kept() {
    let entries = vec![entry(
        "set",
        vec![meaning("verb", vec![def("put", None)]), meaning("verb", vec![def("put", None)])],
    )];
    let records = flatten(&entries);
    assert_eq!(records.len(), 2);
    assert_eq!(records[0], records[1]);
}

#[test]
fn clipboard_starts_with_word_and_has_no_example_line_without_example() {
    for r in flatten(&sample()) {
        assert!(r.clipboard_payload.starts_with("run. ") || r.clipboard_payload.starts_with("runs. "));
    }
    let r = make_record("run", "verb", &def("operate", None));
    assert_eq!(r.clipboard_payload, "run. verb: operate");
    assert!(!r.clipboard_payload.contains('\n'));
    assert_eq!(r.context, "");
}

#[test]
fn flatten_twice_gives_equal_records() {
    let entries = sample();
    let a: Vec<ResultRecord> = flatten(&entries);
    let b: Vec<ResultRecord> = flatten(&entries);
    assert_eq!(a, b);
    assert_eq!(entries, sample());
}

#[test]
fn empty_definition_text() {
    let r = make_record("w", "noun", &def("", Some("")));
    assert_eq!(r.display_text, "noun: ");
    assert_eq!(r.context, "");
    assert_eq!(r.clipboard_payload, "w. noun: \n");
}

#[test]
fn clipboard_text_is_the_payload() {
    let r = make_record("cat", "noun", &def("a feline", None));
    assert_eq!(clipboard_text(&r), "cat. noun: a feline");
}

#[test]
fn lookup_url_plain_word() {
    assert_eq!(lookup_url("run"), "https://api.dictionaryapi.dev/api/v2/entries/en/run");
}

#[test]
fn lookup_url_escapes_query() {
    assert_eq!(lookup_url("hello world"), "https://api.dictionaryapi.dev/api/v2/entries/en/hello%20world");
    assert_eq!(lookup_url("café/?"), "https://api.dictionaryapi.dev/api/v2/entries/en/caf%C3%A9%2F%3F");
    assert_eq!(lookup_url("a-b_c.d~e"), "https://api.dictionaryapi.dev/api/v2/entries/en/a-b_c.d~e");
}

#[test]
fn name_of_the_dictionary() {
    assert_eq!(display_name(), "English Dictionary");
}
