use fui::feeders::{DirItems, Feeder};
use fui::selection::Selection;

struct Countdown;

impl Feeder for Countdown {
    fn query(&self, text: &str, position: usize, items_count: usize) -> Vec<String> {
        (0..10usize)
            .rev()
            .map(|n| format!("{}{}", text, n))
            .skip(position)
            .take(items_count)
            .collect()
    }
}

fn strings(items: &[&str]) -> Vec<String> {
    items.iter().map(|s| s.to_string()).collect()
}

fn formats() -> Vec<String> {
    strings(&["none", "gzip", "bzip2", "xz", "zstd"])
}

#[test]
fn new_selection_is_empty() {
    let selection = Selection::new(3);
    assert_eq!(selection.get_typed(), "");
    assert_eq!(selection.get_candidates(), &Vec::<String>::new());
    assert_eq!(selection.get_selected(), &Vec::<String>::new());
}

#[test]
fn refresh_asks_for_the_first_page() {
    let mut selection = Selection::new(2);
    selection.refresh(&formats(), "z");
    assert_eq!(selection.get_typed(), "z");
    assert_eq!(selection.get_candidates(), &strings(&["gzip", "bzip2"]));
    selection.refresh(&formats(), "zs");
    assert_eq!(selection.get_typed(), "zs");
    assert_eq!(selection.get_candidates(), &strings(&["zstd"]));
    selection.refresh(&formats(), "q");
    assert_eq!(selection.get_candidates(), &Vec::<String>::new());
}

#[test]
fn refresh_works_with_a_feeder_of_the_caller() {
    let mut selection = Selection::new(3);
    selection.refresh(&Countdown, "t-");
    assert_eq!(selection.get_candidates(), &strings(&["t-9", "t-8", "t-7"]));
    assert_eq!(Countdown.query("", 8, 5), strings(&["1", "0"]));
}

#[test]
fn refresh_works_with_the_file_system() {
    let mut selection = Selection::new(5);
    selection.refresh(&DirItems::new(), "sr");
    assert_eq!(selection.get_candidates(), &strings(&["src"]));
}

#[test]
fn typing_leaves_the_selected_items() {
    let mut selection = Selection::new(5);
    selection.refresh(&formats(), "g");
    assert!(selection.select("gzip"));
    selection.refresh(&formats(), "x");
    assert_eq!(selection.get_selected(), &strings(&["gzip"]));
    assert_eq!(selection.get_typed(), "x");
}

#[test]
fn only_candidates_are_selected() {
    let mut selection = Selection::new(5);
    selection.show("z", strings(&["gzip", "bzip2"]));
    assert!(!selection.select("xz"));
    assert!(!selection.select("z"));
    assert!(selection.select("bzip2"));
    assert!(selection.select("gzip"));
    assert_eq!(selection.get_selected(), &strings(&["bzip2", "gzip"]));
}

#[test]
fn an_item_is_selected_once() {
    let mut selection = Selection::new(5);
    selection.show("z", strings(&["gzip", "bzip2"]));
    assert!(selection.select("gzip"));
    assert!(!selection.select("gzip"));
    assert_eq!(selection.get_selected(), &strings(&["gzip"]));
}

#[test]
fn anything_can_be_selected_when_allowed() {
    let mut selection = Selection::new(5).select_anything();
    selection.show("z", strings(&["gzip"]));
    assert!(selection.select("elsewhere"));
    assert!(!selection.select("elsewhere"));
    assert!(selection.select("gzip"));
    assert_eq!(selection.get_selected(), &strings(&["elsewhere", "gzip"]));
}

#[test]
fn an_item_can_be_selected_again_when_allowed() {
    let mut selection = Selection::new(5).redundant_selection();
    selection.show("z", strings(&["gzip"]));
    assert!(selection.select("gzip"));
    assert!(selection.select("gzip"));
    assert!(!selection.select("xz"));
    assert_eq!(selection.get_selected(), &strings(&["gzip", "gzip"]));
}

#[test]
fn deselect_takes_the_first_confirmation_back() {
    let mut selection = Selection::new(5).redundant_selection().select_anything();
    for item in ["a", "b", "a", "c"] {
        assert!(selection.select(item));
    }
    assert!(selection.deselect("a"));
    assert_eq!(selection.get_selected(), &strings(&["b", "a", "c"]));
    assert!(selection.deselect("a"));
    assert_eq!(selection.get_selected(), &strings(&["b", "c"]));
    assert!(!selection.deselect("a"));
    assert_eq!(selection.get_selected(), &strings(&["b", "c"]));
}
