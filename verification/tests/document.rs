use retrvid::document::{get_data, reads_back, to_document, EMPTY_NAME, TOO_DEEP};
use retrvid::failure::Failure;
use retrvid::store::Store;

fn store_of(pairs: &[(&str, &str)]) -> Store {
    let mut store = Store::new();
    for (name, id) in pairs {
        store.insert(name.to_string(), id.to_string()).unwrap();
    }
    store
}

fn sorted(store: &Store) -> Vec<(String, String)> {
    let mut entries = store.entries().clone();
    entries.sort();
    entries
}

fn round_trip(pairs: &[(&str, &str)]) {
    let store = store_of(pairs);
    let text = to_document(&store).unwrap();
    let back = get_data(&text).unwrap();
    assert_eq!(sorted(&back), sorted(&store), "through {:?}", text);
    assert_eq!(back, store);
    assert_eq!(back.len(), pairs.len());
    assert!(reads_back(&text, &store));
}

#[test]
fn the_empty_text_is_the_empty_store() {
    let store = get_data("").unwrap();
    assert!(store.is_empty());
}

#[test]
fn a_table_of_strings_is_read() {
    let store = get_data("work = \"12345\"\nhome = '67890'\n").unwrap();
    assert_eq!(store.len(), 2);
    assert_eq!(store.get("work"), Some(&"12345".to_string()));
    assert_eq!(store.get("home"), Some(&"67890".to_string()));
}

#[test]
fn entries_are_read_in_the_order_of_their_names() {
    let store = get_data("b = \"2\"\nc = \"3\"\na = \"1\"\n").unwrap();
    assert_eq!(
        store.list(),
        Some(vec!["a".to_string(), "b".to_string(), "c".to_string()])
    );
}

#[test]
fn quoted_names_are_read() {
    let store = get_data("\"my bank\" = \"DE00 1234\"\n").unwrap();
    assert_eq!(store.get("my bank"), Some(&"DE00 1234".to_string()));
}

#[test]
fn text_that_is_no_document_is_refused() {
    let failed = get_data("work = ").unwrap_err();
    assert!(matches!(failed, Failure::Decode(_)));
    assert!(!failed.message().is_empty());
}

#[test]
fn a_value_that_is_no_string_is_refused() {
    assert!(matches!(get_data("work = 12345\n"), Err(Failure::Decode(_))));
    assert!(matches!(get_data("[work]\nid = \"1\"\n"), Err(Failure::Decode(_))));
}

#[test]
fn a_name_given_twice_is_held_once() {
    let store = get_data("a = \"1\"\na = \"2\"\n").unwrap();
    assert_eq!(store.len(), 1);
    assert_eq!(store.entries(), &vec![("a".to_string(), "2".to_string())]);
}

#[test]
fn the_empty_store_is_the_empty_document() {
    assert_eq!(to_document(&Store::new()), Ok(String::new()));
}

#[test]
fn one_entry_is_one_line() {
    assert_eq!(to_document(&store_of(&[("work", "12345")])), Ok("work = '12345'\n".to_string()));
}

#[test]
fn entries_are_written_in_the_order_of_their_names() {
    let store = store_of(&[("work", "12345"), ("home", "67890")]);
    assert_eq!(to_document(&store), Ok("home = '67890'\nwork = '12345'\n".to_string()));
}

#[test]
fn round_trip_of_no_entry() {
    round_trip(&[]);
}

#[test]
fn round_trip_of_one_entry() {
    round_trip(&[("work", "12345")]);
}

#[test]
fn round_trip_of_many_entries() {
    round_trip(&[("work", "12345"), ("home", "67890"), ("a", "1"), ("b", "2"), ("z", "26")]);
}

#[test]
fn round_trip_of_empty_ids() {
    round_trip(&[("blank", ""), ("other", "x"), ("void", "")]);
}

#[test]
fn round_trip_of_whitespace_and_punctuation() {
    round_trip(&[
        ("my bank", "DE00 1234 5678"),
        ("e-mail", "a.b+c@example.org"),
        ("quote's", "it's \"quoted\""),
        ("path\\like", "C:\\dir\\file"),
        ("tab\there", "a\tb"),
        ("dotted.name", "x = y # z"),
        ("brackets", "[table] {inline}"),
        (" padded ", "  both  "),
    ]);
}

#[test]
fn round_trip_of_line_breaks_and_other_scripts() {
    round_trip(&[
        ("two\nlines", "first\nsecond\n"),
        ("carriage", "a\r\nb"),
        ("Schlüssel", "größe"),
        ("鍵", "値 🔑"),
        ("triple", "'''"),
        ("triple double", "\"\"\""),
    ]);
}

#[test]
fn reads_back_tells_a_different_mapping() {
    let store = store_of(&[("work", "12345")]);
    assert!(reads_back("work = \"12345\"\n", &store));
    assert!(reads_back("# a comment\n\"work\"   =   '12345'", &store));
    assert!(!reads_back("work = \"1234\"\n", &store));
    assert!(!reads_back("home = \"12345\"\n", &store));
    assert!(!reads_back("work = \"12345\"\nhome = \"1\"\n", &store));
    assert!(!reads_back("", &store));
    assert!(!reads_back("work = ", &store));
    assert!(reads_back("", &Store::new()));
}

#[test]
fn a_document_handed_out_reads_back() {
    let mut store = Store::new();
    for number in 0..40 {
        let id = format!("id #{} = \"{}\"", number, number * 7);
        store.insert(format!("name {}", number), id).unwrap();
        let text = to_document(&store).unwrap();
        assert!(reads_back(&text, &store));
        assert_eq!(get_data(&text).unwrap(), store);
    }
}

#[test]
fn an_empty_name_in_the_file_is_refused() {
    assert_eq!(
        get_data("\"\" = \"x\"\n").unwrap_err(),
        Failure::Decode(EMPTY_NAME.to_string())
    );
    assert_eq!(
        get_data("work = \"1\"\n'' = \"x\"\n").unwrap_err(),
        Failure::Decode(EMPTY_NAME.to_string())
    );
    assert_eq!(EMPTY_NAME, "the storage file holds an id under an empty name");
}

#[test]
fn the_parser_is_heard_where_it_refuses() {
    let failed = get_data("work = ").unwrap_err();
    assert_eq!(
        failed,
        Failure::Decode("unexpected eof encountered at line 1 column 8".to_string())
    );
    assert_eq!(failed.report(), "error: unexpected eof encountered at line 1 column 8");
    assert_eq!(
        get_data("work = 5\n").unwrap_err().message(),
        "invalid type: integer `5`, expected a string for key `work` at line 1 column 8"
    );
}

#[test]
fn a_text_nested_too_deeply_is_refused_unread() {
    let deep = format!("a = {}", "[".repeat(100_000));
    assert_eq!(get_data(&deep).unwrap_err(), Failure::Decode(TOO_DEEP.to_string()));
    let braces = format!("a = {}", "{ b = ".repeat(100_000));
    assert_eq!(get_data(&braces).unwrap_err(), Failure::Decode(TOO_DEEP.to_string()));
    let dotted = format!("a{} = \"x\"", ".b".repeat(100_000));
    assert_eq!(get_data(&dotted).unwrap_err(), Failure::Decode(TOO_DEEP.to_string()));
    let header = format!("[a{}]\n", ".b".repeat(100_000));
    assert_eq!(get_data(&header).unwrap_err(), Failure::Decode(TOO_DEEP.to_string()));
    assert_eq!(TOO_DEEP, "the storage file nests too deeply to be read");
}

#[test]
fn a_text_nested_within_the_bound_is_left_to_the_parser() {
    let nested = format!("a = {}{}", "[".repeat(100), "]".repeat(100));
    let failed = get_data(&nested).unwrap_err();
    assert!(matches!(failed, Failure::Decode(_)));
    assert_ne!(failed, Failure::Decode(TOO_DEEP.to_string()));
}

#[test]
fn what_stands_in_strings_does_not_nest() {
    let mut text = String::new();
    for number in 0..1000 {
        let id = format!("'a.b[{}]@example.org {{x}}'", number);
        text.push_str(&format!("\"name.{}\" = {} # [..]\n", number, id));
    }
    let store = get_data(&text).unwrap();
    assert_eq!(store.len(), 1000);
    assert_eq!(store.get("name.7"), Some(&"a.b[7]@example.org {x}".to_string()));
}

#[test]
fn round_trip_of_an_apostrophe_and_many_dots() {
    let id = format!("it's{}", ".".repeat(129));
    round_trip(&[("k", &id)]);
    let long = format!("don't [{}] {{{}}}", ".".repeat(5000), "[".repeat(5000));
    round_trip(&[("a", &long), ("b", "plain"), ("c", &long)]);
}

#[test]
fn round_trip_of_an_id_of_several_lines_with_brackets() {
    let id = format!("[first]\n{}\n{{third}}\n'quoted' \"twice\"\n", "[[a.b]]\n".repeat(200));
    round_trip(&[("lines", &id), ("other", "x")]);
    round_trip(&[("both", "it's\n'''\n\"\"\"\n[.{"), ("back\\slash", "a\\\n.\\[")]);
}

#[test]
fn a_store_of_many_dotted_ids_is_read() {
    let mut store = Store::new();
    for number in 0..300 {
        let id = format!("user.{}@mail.example.org\nit's [{}]", number, number);
        store.insert(format!("name.{}", number), id).unwrap();
    }
    let text = to_document(&store).unwrap();
    assert_eq!(get_data(&text).unwrap(), store);
}
