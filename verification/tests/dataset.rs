use libmtg_doomsday::dataset::{dataset_header, name_lt, sorted_card_names};
use libmtg_doomsday::goldfish::{sample_doomsday_deck, vroomsday_deck};

fn entry(name: &str, qty: i32) -> (String, i32, String) {
    (name.to_string(), qty, "main".to_string())
}

#[test]
fn card_names_sorted_and_distinct() {
    let deck = vec![entry("Ponder", 4), entry("Daze", 3), entry("Ponder", 1), entry("Brainstorm", 4)];
    assert_eq!(sorted_card_names(&deck), vec!["Brainstorm", "Daze", "Ponder"]);
    assert!(sorted_card_names(&[]).is_empty());
}

#[test]
fn card_names_match_std_sort() {
    for deck in [sample_doomsday_deck(), vroomsday_deck()] {
        let mut expected: Vec<String> = deck.iter().map(|(n, _, _)| n.clone()).collect();
        expected.sort();
        expected.dedup();
        assert_eq!(sorted_card_names(&deck), expected);
    }
}

#[test]
fn name_order_is_by_code_point() {
    assert!(name_lt("Daze", "Doomsday"));
    assert!(!name_lt("Doomsday", "Daze"));
    assert!(name_lt("Dark", "Dark Ritual"));
    assert!(!name_lt("Ponder", "Ponder"));
    assert!(name_lt("Zed", "a"));
    assert!(name_lt("Jace", "Jacé"));
    assert_eq!(name_lt("Lim-Dûl", "Lim-Dul"), "Lim-Dûl" < "Lim-Dul");
}

#[test]
fn header_quotes_names_then_labels() {
    let cards = vec!["Jace, Wielder of Mysteries".to_string(), "Ponder".to_string()];
    assert_eq!(
        dataset_header(&cards),
        "\"Jace, Wielder of Mysteries\",\"Ponder\",det_line,tami_flip,p_cast,realistic,aggressive,win\n"
    );
    assert_eq!(dataset_header(&[]), ",det_line,tami_flip,p_cast,realistic,aggressive,win\n");
}
