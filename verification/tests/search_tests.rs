use bus_schedule::schedule::Stop;
use bus_schedule::store::Data;
use bus_schedule::table::Table;
use bus_schedule::text::{chars_of, is_char, occurs, same_text, text_precedes};

fn stop(id: &str, name: &str) -> Stop {
    Stop { stop_id: id.to_string(), stop_name: name.to_string() }
}

fn stops() -> Data {
    Data::read(
        vec![],
        vec![],
        vec![],
        vec![],
        vec![
            stop("300", "University & Park"),
            stop("100", "Main & 1st"),
            stop("200", "MAIN & Park"),
            stop("150", "Capitol Square"),
            stop("20", "park street"),
        ],
    )
    .unwrap()
}

fn pairs(found: &[(String, String)]) -> Vec<(&str, &str)> {
    found.iter().map(|(id, name)| (id.as_str(), name.as_str())).collect()
}

#[test]
fn search_finds_the_stops_that_hold_the_word() {
    let found = stops().search(vec!["main"]);
    assert_eq!(pairs(&found), vec![("100", "Main & 1st"), ("200", "MAIN & Park")]);
}

#[test]
fn search_sets_the_case_of_the_words_aside() {
    let found = stops().search(vec!["PARK"]);
    assert_eq!(
        pairs(&found),
        vec![("20", "park street"), ("200", "MAIN & Park"), ("300", "University & Park")]
    );
}

#[test]
fn search_asks_for_every_word() {
    let found = stops().search(vec!["park", "Main"]);
    assert_eq!(pairs(&found), vec![("200", "MAIN & Park")]);
    assert!(stops().search(vec!["park", "capitol"]).is_empty());
    assert!(stops().search(vec!["nowhere"]).is_empty());
}

#[test]
fn search_without_a_word_lists_every_stop_in_order() {
    let found = stops().search(vec![]);
    assert_eq!(
        pairs(&found),
        vec![
            ("100", "Main & 1st"),
            ("150", "Capitol Square"),
            ("20", "park street"),
            ("200", "MAIN & Park"),
            ("300", "University & Park"),
        ]
    );
    let mut sorted = found.clone();
    sorted.sort();
    assert_eq!(found, sorted);
}

#[test]
fn search_lowers_letters_beyond_ascii() {
    let named = vec![stop("1", "ÉCOLE Élysée")];
    let data = Data::read(vec![], vec![], vec![], vec![], named).unwrap();
    assert_eq!(pairs(&data.search(vec!["école"])), vec![("1", "ÉCOLE Élysée")]);
    assert_eq!(pairs(&data.search(vec!["ÉLYSÉE"])), vec![("1", "ÉCOLE Élysée")]);
    assert!(data.search(vec!["ecole"]).is_empty());
}

#[test]
fn texts_are_ordered_as_strings_are() {
    let texts = ["", "a", "A", "ab", "abc", "b", "10", "2", "é", "z", "ab ", "Z"];
    for a in texts {
        for b in texts {
            assert_eq!(text_precedes(a, b), a < b, "{:?} {:?}", a, b);
            assert_eq!(same_text(a, b), a == b);
        }
    }
}

#[test]
fn a_part_occurs_where_the_text_holds_it() {
    let texts = ["", "a", "ab", "abc", "bc", "c", "abd", "abcabc", "cab", "é", "aé"];
    for part in texts {
        for text in texts {
            let found = occurs(&chars_of(part), &chars_of(text));
            assert_eq!(found, text.contains(part), "{:?} in {:?}", part, text);
        }
    }
    assert_eq!(chars_of("aé"), vec!['a', 'é']);
}

#[test]
fn one_character_is_recognised() {
    assert!(is_char("1", '1'));
    assert!(!is_char("0", '1'));
    assert!(!is_char("11", '1'));
    assert!(!is_char("", '1'));
    assert!(!is_char(" 1", '1'));
}

#[test]
fn a_table_keeps_one_value_for_a_key() {
    let mut table: Table<u32> = Table::new();
    assert_eq!(table.len(), 0);
    assert_eq!(table.get("a"), None);
    table.insert("a".to_string(), 1);
    table.insert("b".to_string(), 2);
    table.insert("a".to_string(), 3);
    assert_eq!(table.len(), 2);
    assert_eq!(table.get("a"), Some(&3));
    assert_eq!(table.get("b"), Some(&2));
    assert_eq!(table.get("c"), None);
    assert_eq!(table.find("a"), Some(0));
    assert_eq!(table.find("b"), Some(1));
    assert_eq!(table.find("A"), None);
    assert_eq!(table.keys, vec!["a".to_string(), "b".to_string()]);
    assert_eq!(table.values, vec![3, 2]);
}
