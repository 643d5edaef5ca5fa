use fui::feeders::{
    add_glob, glob_pattern, glob_request, is_hidden, list_matches, names_hidden_entry, paginate,
    strip_here, Candidate, DirItems, Feeder,
};
use std::collections::HashSet;
use std::rc::Rc;

fn set_of(found: Vec<String>) -> HashSet<String> {
    found.into_iter().collect()
}

fn strings(items: &[&str]) -> Vec<String> {
    items.iter().map(|s| s.to_string()).collect()
}

fn expected(start: &str) -> HashSet<String> {
    let found: Vec<String> = {
        if let Ok(v) = glob::glob(&format!("{}/*", start.trim_end_matches('/'))) {
            v.filter(|x| {
                if let Ok(path) = x.as_ref() {
                    if let Some(name) = path.file_name().and_then(|name| name.to_str()) {
                        !name.starts_with(".")
                    } else {
                        false
                    }
                } else {
                    false
                }
            })
            .map(|x| {
                let p = format!("{}", x.as_ref().unwrap().display());
                p.replace("./", "")
            })
            .collect()
        } else {
            Vec::new()
        }
    };
    set_of(found)
}

#[test]
fn test_glob_is_added_ok() {
    assert_eq!(add_glob(""), "*");
    assert_eq!(add_glob("/"), "/*");
    assert_eq!(add_glob("/home/"), "/home/*");
    assert_eq!(add_glob("/home/user/xxx"), "/home/user/*xxx*");
    assert_eq!(add_glob("/home/user/*xxx"), "/home/user/*xxx");
    assert_eq!(add_glob("/home/user/xxx*"), "/home/user/xxx*");
    assert_eq!(add_glob("**/xxx"), "**/*xxx*");
    assert_eq!(add_glob("**/*xxx"), "**/*xxx");
    assert_eq!(add_glob("**/xxx*"), "**/xxx*");
}

#[test]
fn test_dir_item_works_with_current_dir() {
    let di = DirItems::new();
    let found = di.query("", 0, 100);
    assert_eq!(set_of(found), expected("./"));
}

#[test]
fn test_dir_item_works_with_current_subdir() {
    let di = DirItems::new();
    let found = di.query("examples/", 0, 100);
    assert_eq!(set_of(found), expected("./examples"));
}

#[test]
fn test_dir_item_works_with_current_missing_dir() {
    let di = DirItems::new();
    let found = di.query("missing-dir", 0, 10);
    assert_eq!(set_of(found), expected("./missing-dir"));
}

#[test]
fn test_dir_item_works_with_homedir() {
    let di = DirItems::new();
    let found = di.query("~/", 0, 200);
    let homedir = dirs::home_dir().unwrap();
    assert_eq!(set_of(found), expected(homedir.to_str().unwrap()));
}

#[test]
fn test_dir_item_works_with_root_subdir() {
    let di = DirItems::new();
    let found = di.query("/root/", 0, 100);
    assert_eq!(set_of(found), HashSet::<String>::new());
}

#[test]
fn test_dir_item_works_with_top_missing_dir() {
    let di = DirItems::new();
    let found = di.query("/missing-dir", 0, 10);
    assert_eq!(set_of(found), HashSet::<String>::new());
}

#[test]
fn test_dir_item_works_with_broken_glob() {
    let di = DirItems::new();
    let found = di.query("**.", 0, 10);
    assert_eq!(set_of(found), HashSet::<String>::new());
}

#[test]
fn glob_of_a_glob_is_unchanged() {
    for path in ["", "/", "a", "a/b", "/home/user/xxx", "**/xxx", "x*y/z", "a/b/", "*"] {
        let once = add_glob(path);
        assert_eq!(add_glob(&once), once, "for {:?}", path);
    }
}

#[test]
fn glob_changes_the_last_component_only() {
    assert_eq!(add_glob("x*y/z"), "x*y/*z*");
    assert_eq!(add_glob("a//b"), "a//*b*");
    assert_eq!(add_glob("a/b/."), "a/b/*.*");
    assert_eq!(add_glob("żółw/ćma"), "żółw/*ćma*");
    assert_eq!(add_glob("*"), "*");
}

#[test]
fn glob_pattern_resolves_the_typed_text() {
    assert_eq!(glob_pattern("", None), Some("./*".to_string()));
    assert_eq!(glob_pattern("", Some("/home/me")), Some("./*".to_string()));
    assert_eq!(glob_pattern("src/li", None), Some("src/*li*".to_string()));
    assert_eq!(glob_pattern("~", Some("/home/me")), Some("/home/*me*".to_string()));
    assert_eq!(glob_pattern("~/", Some("/home/me")), Some("/home/me/*".to_string()));
    assert_eq!(glob_pattern("~/do", Some("/home/me")), Some("/home/me/*do*".to_string()));
    assert_eq!(glob_pattern("~/a~", Some("/h")), Some("/h/a/*h*".to_string()));
    assert_eq!(glob_pattern("~~", Some("h")), Some("*hh*".to_string()));
    assert_eq!(glob_pattern("a~", Some("/h")), Some("*a~*".to_string()));
}

#[test]
fn glob_pattern_needs_a_home_for_a_tilde() {
    assert_eq!(glob_pattern("~/x", None), None);
    assert_eq!(glob_pattern("~", None), None);
}

#[test]
fn paginate_skips_and_takes() {
    let all = strings(&["a", "b", "c", "d", "e"]);
    assert_eq!(paginate(&all, 0, 2), strings(&["a", "b"]));
    assert_eq!(paginate(&all, 2, 2), strings(&["c", "d"]));
    assert_eq!(paginate(&all, 4, 2), strings(&["e"]));
    assert_eq!(paginate(&all, 5, 2), Vec::<String>::new());
    assert_eq!(paginate(&all, 9, 2), Vec::<String>::new());
    assert_eq!(paginate(&all, 0, 0), Vec::<String>::new());
    assert_eq!(paginate(&all, 0, 5), all);
    assert_eq!(paginate(&all, 1, usize::MAX), strings(&["b", "c", "d", "e"]));
    assert_eq!(paginate(&all, usize::MAX, usize::MAX), Vec::<String>::new());
    assert_eq!(paginate(&Vec::new(), 0, 3), Vec::<String>::new());
}

#[test]
fn pages_join_without_gap_or_repeat() {
    let all = strings(&["a", "b", "c", "d", "e", "f", "g"]);
    for position in 0..9 {
        for first in 0..4 {
            for second in 0..4 {
                let mut joined = paginate(&all, position, first);
                joined.extend(paginate(&all, position + first, second));
                assert_eq!(joined, paginate(&all, position, first + second));
            }
        }
    }
}

#[test]
fn list_of_a_directory_finds_the_file() {
    let listing = strings(&["a.txt", "b.txt", "sub/"]);
    assert_eq!(listing.query("a", 0, 10), strings(&["a.txt"]));
}

#[test]
fn list_feeder_sets_case_aside() {
    let items = strings(&["Apple", "BANANA", "cherry", "Banana split"]);
    assert_eq!(items.query("an", 0, 10), strings(&["BANANA", "Banana split"]));
    assert_eq!(items.query("", 0, 10), items);
    assert_eq!(items.query("An", 0, 10), strings(&["BANANA", "Banana split"]));
    assert_eq!(items.query("AN", 0, 10), strings(&["BANANA", "Banana split"]));
    assert_eq!(items.query("APP", 0, 10), strings(&["Apple"]));
    assert_eq!(strings(&["Apple"]).query("APP", 0, 10), strings(&["Apple"]));
    assert_eq!(items.query("ŻÓŁW", 0, 10), Vec::<String>::new());
    assert_eq!(strings(&["żółw", "Żółw", "ŻÓŁW"]).query("ÓŁ", 0, 10), strings(&["żółw", "Żółw", "ŻÓŁW"]));
    assert_eq!(items.query("e", 1, 1), strings(&["cherry"]));
    assert_eq!(list_matches(&items, "pp"), strings(&["Apple"]));
}

#[test]
fn list_feeder_page_is_a_slice_of_all_matches() {
    let items = strings(&["one", "two", "three", "four", "zero", "ten", "eleven"]);
    let all = items.query("e", 0, usize::MAX);
    assert_eq!(all, strings(&["one", "three", "zero", "ten", "eleven"]));
    for position in 0..7 {
        for limit in 0..7 {
            let from = position.min(all.len());
            let to = (position + limit).min(all.len());
            assert_eq!(items.query("e", position, limit), all[from..to].to_vec());
        }
    }
}

#[test]
fn list_of_literals_is_a_feeder() {
    let options = vec!["option1", "option2", "option3", "option4", "option5", "option6"];
    assert_eq!(options.query("option", 4, 10), strings(&["option5", "option6"]));
    assert_eq!(options.query("3", 0, 10), strings(&["option3"]));
    assert_eq!(options.query("", 0, 2), strings(&["option1", "option2"]));
    let mixed = vec!["Alpha", "BETA"];
    assert_eq!(mixed.query("a", 0, 10), strings(&["Alpha", "BETA"]));
    assert_eq!(mixed.query("A", 0, 10), strings(&["Alpha", "BETA"]));
    assert_eq!(mixed.query("ET", 0, 10), strings(&["BETA"]));
}

#[test]
fn shared_feeder_answers_like_the_feeder() {
    let items = strings(&["alpha", "beta", "gamma"]);
    let shared: Rc<Vec<String>> = Rc::new(items.clone());
    assert_eq!(shared.query("a", 1, 5), items.query("a", 1, 5));
    assert_eq!(shared.query("a", 1, 5), strings(&["beta", "gamma"]));
    let boxed: Rc<dyn Feeder> = Rc::new(items);
    assert_eq!(boxed.query("mm", 0, 5), strings(&["gamma"]));
}

fn candidate(path: &str, is_dir: Option<bool>, full_path: Option<&str>) -> Candidate {
    Candidate { path: path.to_string(), is_dir, full_path: full_path.map(|s| s.to_string()) }
}

fn candidates() -> Vec<Candidate> {
    vec![
        candidate("a.txt", Some(false), Some("/work/a.txt")),
        candidate("broken", None, None),
        candidate("docs", Some(true), Some("/work/docs")),
        candidate("gone", Some(false), None),
        candidate("src", Some(true), None),
        candidate("z.txt", Some(false), Some("/work/z.txt")),
    ]
}

#[test]
fn select_keeps_what_has_metadata() {
    let found = DirItems::new().select(&candidates(), 0, 10);
    assert_eq!(found, strings(&["a.txt", "docs", "gone", "src", "z.txt"]));
}

#[test]
fn select_keeps_only_directories() {
    let found = DirItems::dirs().select(&candidates(), 0, 10);
    assert_eq!(found, strings(&["docs", "src"]));
}

#[test]
fn select_shows_full_paths() {
    let found = DirItems::new().use_full_paths().select(&candidates(), 0, 10);
    assert_eq!(found, strings(&["/work/a.txt", "/work/docs", "/work/z.txt"]));
    let found = DirItems::dirs().use_full_paths().select(&candidates(), 0, 10);
    assert_eq!(found, strings(&["/work/docs"]));
}

#[test]
fn select_pages_after_filtering() {
    let items = DirItems::new();
    assert_eq!(items.select(&candidates(), 1, 2), strings(&["docs", "gone"]));
    assert_eq!(items.select(&candidates(), 4, 2), strings(&["z.txt"]));
    assert_eq!(items.select(&candidates(), 5, 2), Vec::<String>::new());
    assert_eq!(DirItems::dirs().select(&candidates(), 1, 1), strings(&["src"]));
}

#[test]
fn dir_items_pages_follow_each_other() {
    let di = DirItems::new();
    let all = di.query("", 0, 100);
    assert!(all.contains(&"src".to_string()));
    assert!(all.contains(&"tests".to_string()));
    for position in 0..all.len() + 1 {
        let page = di.query("", position, 1);
        let to = (position + 1).min(all.len());
        assert_eq!(page, all[position..to].to_vec());
    }
    assert_eq!(di.query("", 0, 0), Vec::<String>::new());
}

#[test]
fn dir_items_finds_a_fragment_of_a_name() {
    let di = DirItems::new();
    assert_eq!(di.query("sr", 0, 10), strings(&["src"]));
    assert_eq!(di.query("rc", 0, 10), strings(&["src"]));
    assert_eq!(di.query("tests/feed", 0, 10), strings(&["tests/feeders.rs"]));
    assert_eq!(di.query("src", 0, 10), strings(&["src"]));
}

#[test]
fn dir_items_dirs_leaves_files_out() {
    assert_eq!(DirItems::dirs().query("tests/feed", 0, 10), Vec::<String>::new());
    assert_eq!(DirItems::dirs().query("sr", 0, 10), strings(&["src"]));
}

#[test]
fn dir_items_full_paths_are_absolute() {
    let found = DirItems::new().use_full_paths().query("sr", 0, 10);
    assert_eq!(found.len(), 1);
    assert!(found[0].starts_with('/'));
    assert!(found[0].ends_with("/src"));
}

#[test]
fn dir_items_uppercase_asks_for_the_exact_case() {
    let di = DirItems::new();
    assert_eq!(di.query("SRC", 0, 10), Vec::<String>::new());
    assert_eq!(di.query("Src", 0, 10), Vec::<String>::new());
    assert_eq!(di.query("tests/FEED", 0, 10), Vec::<String>::new());
    assert_eq!(di.query("tests/feed", 0, 10), strings(&["tests/feeders.rs"]));
}

#[test]
fn dir_items_lowercase_finds_any_case() {
    let di = DirItems::new();
    for dir in ["/etc/", "/usr/lib/", "/usr/share/", "/usr/bin/", "/"] {
        for path in di.query(dir, 0, 10000) {
            let name = &path[dir.len()..];
            let plain = name.chars().all(|c| c.is_ascii_alphanumeric());
            if plain && name.chars().any(|c| c.is_ascii_uppercase()) {
                let lower = format!("{}{}", dir, name.to_ascii_lowercase());
                assert!(di.query(&lower, 0, 10000).contains(&path));
                let exact = di.query(&path, 0, 10000);
                assert!(exact.contains(&path));
                assert!(exact.iter().all(|found| found.contains(name)));
            }
        }
    }
}

#[test]
fn glob_request_follows_the_typed_text() {
    let request = glob_request("src/Li", None).unwrap();
    assert_eq!(request.pattern, "src/*Li*");
    assert!(request.case_sensitive);
    assert!(!request.require_literal_separator);
    assert!(request.require_literal_leading_dot);
    let request = glob_request("~/do", Some("/home/me")).unwrap();
    assert_eq!(request.pattern, "/home/me/*do*");
    assert!(!request.case_sensitive);
    assert!(request.require_literal_leading_dot);
    assert!(glob_request("~/do", None).is_none());
}

fn hidden_for(text: &str, path: &str) -> bool {
    is_hidden(&glob_request(text, Some("/home/me")).unwrap(), path)
}

#[test]
fn a_wildcard_finds_no_hidden_entry() {
    assert!(hidden_for("", ".git"));
    assert!(hidden_for("*", ".git"));
    assert!(hidden_for("git", ".git"));
    assert!(hidden_for("src/", "src/.hidden"));
    assert!(hidden_for("~/", "/home/me/.bashrc"));
    assert!(hidden_for("/root/", "/root/.bashrc"));
    assert!(hidden_for("**", "a/.cache/b"));
    assert!(hidden_for("**", ".cache"));
    assert!(hidden_for("*/x", ".a/xy"));
    assert!(hidden_for("?gi", ".git"));
    assert!(hidden_for("[.]gi", ".git"));
}

#[test]
fn a_typed_name_does_not_show_what_a_wildcard_matched() {
    assert!(hidden_for(".config/", ".config/.config"));
    assert!(hidden_for(".git/", ".git/.hidden"));
    assert!(!hidden_for(".config/", ".config/rc"));
    assert!(hidden_for("src/", ".git/src"));
    assert!(hidden_for("/home/.me/", "/home/.you/notes"));
}

#[test]
fn a_typed_dot_finds_the_hidden_entry() {
    assert!(!hidden_for(".gi", ".git"));
    assert!(!hidden_for(".gi", ".gitignore"));
    assert!(!hidden_for(".git", ".git"));
    assert!(!hidden_for("./.g", ".git"));
    assert!(!hidden_for("././.g", ".git"));
    assert!(!hidden_for(".gi*", ".gitignore"));
    assert!(hidden_for(".gi", ".x.gi"));
    assert!(hidden_for(".gitx", ".git"));
    assert!(!hidden_for(".git/", ".git/config"));
    assert!(!hidden_for(".git/co", ".git/config"));
    assert!(!hidden_for("./.config/rc", ".config/rc.d"));
    assert!(!hidden_for(".config/.s", ".config/.secret"));
    assert!(!hidden_for("/home/.me/", "/home/.me/notes"));
    assert!(!hidden_for("~/.ba", "/home/me/.bashrc"));
    assert!(!hidden_for(".git/**", ".git/objects/ab"));
    assert!(hidden_for(".git/**", ".git/.objects/ab"));
}

#[test]
fn a_typed_dot_follows_the_case_rule() {
    assert!(!hidden_for(".gi", ".GITHUB"));
    assert!(!hidden_for(".gi", ".Git"));
    assert!(hidden_for(".GI", ".gitignore"));
    assert!(!hidden_for(".GI", ".GItest"));
    assert!(hidden_for(".Git", ".git"));
}

#[test]
fn plain_names_and_the_two_directory_links_hide_nothing() {
    assert!(!hidden_for("", "src"));
    assert!(!hidden_for("*", ""));
    assert!(!hidden_for("x", "a/b/c"));
    assert!(!hidden_for("", "a.txt"));
    assert!(!hidden_for("", "a/b.c/d.e"));
    assert!(!hidden_for("../", "../src"));
    assert!(!hidden_for("", "./src"));
    assert!(!hidden_for("", "a/../b/./c"));
    assert!(!hidden_for(".*", "."));
    assert!(!hidden_for(".*", ".."));
    assert!(names_hidden_entry("..."));
    assert!(names_hidden_entry("a//.b"));
    assert!(names_hidden_entry(".a"));
    assert!(names_hidden_entry("a/.b/c"));
    assert!(names_hidden_entry("/.b"));
    assert!(!names_hidden_entry("a./b."));
    assert!(!names_hidden_entry(""));
    assert!(!names_hidden_entry("/"));
    assert!(!names_hidden_entry("./../."));
}

#[test]
fn the_pattern_is_read_without_the_current_directory() {
    assert_eq!(strip_here("./*"), "*");
    assert_eq!(strip_here("././a/./b"), "a/./b");
    assert_eq!(strip_here("../a"), "../a");
    assert_eq!(strip_here(".a/b"), ".a/b");
    assert_eq!(strip_here("./"), "");
    assert_eq!(strip_here("."), ".");
    assert_eq!(strip_here(""), "");
    assert_eq!(strip_here("/./a"), "/./a");
}

#[test]
fn probe_takes_nothing_from_a_refusal() {
    let request = glob_request("**.", None).unwrap();
    assert!(DirItems::new().probe(&request, &None, 10).is_empty());
    assert!(DirItems::new().probe(&request, &None, 0).is_empty());
}

#[test]
fn probe_passes_over_hidden_paths_and_unreadable_directories() {
    let answer = Some(vec![
        Some(".git".to_string()),
        None,
        Some("nowhere".to_string()),
        Some("src".to_string()),
        Some("tests/.hidden".to_string()),
        Some("tests/feeders.rs".to_string()),
    ]);
    let request = glob_request("", None).unwrap();
    let candidates = DirItems::new().probe(&request, &answer, 10);
    let paths: Vec<&str> = candidates.iter().map(|c| c.path.as_str()).collect();
    assert_eq!(paths, vec!["nowhere", "src", "tests/feeders.rs"]);
    let kinds: Vec<Option<bool>> = candidates.iter().map(|c| c.is_dir).collect();
    assert_eq!(kinds, vec![None, Some(true), Some(false)]);
    assert!(candidates.iter().all(|c| c.full_path.is_none()));
    assert_eq!(DirItems::new().select(&candidates, 0, 10), strings(&["src", "tests/feeders.rs"]));
}

#[test]
fn probe_keeps_a_hidden_path_whose_dot_is_typed() {
    let answer = Some(vec![
        Some(".src".to_string()),
        Some(".x.src".to_string()),
        Some("src".to_string()),
    ]);
    let request = glob_request(".sr", None).unwrap();
    let candidates = DirItems::new().probe(&request, &answer, 10);
    let paths: Vec<&str> = candidates.iter().map(|c| c.path.as_str()).collect();
    assert_eq!(paths, vec![".src", "src"]);
}

#[test]
fn probe_stops_when_the_page_is_full() {
    let answer = Some(vec![
        Some("src".to_string()),
        Some("nowhere".to_string()),
        Some("tests".to_string()),
        Some("tests/feeders.rs".to_string()),
    ]);
    let items = DirItems::new();
    let request = glob_request("*", None).unwrap();
    let paths = |enough: usize| -> Vec<String> {
        items.probe(&request, &answer, enough).into_iter().map(|c| c.path).collect()
    };
    assert_eq!(paths(0), Vec::<String>::new());
    assert_eq!(paths(1), strings(&["src"]));
    assert_eq!(paths(2), strings(&["src", "nowhere", "tests"]));
    assert_eq!(paths(3), strings(&["src", "nowhere", "tests", "tests/feeders.rs"]));
    assert_eq!(paths(9), strings(&["src", "nowhere", "tests", "tests/feeders.rs"]));
    let dirs = DirItems::dirs().probe(&request, &answer, 2);
    assert_eq!(dirs.len(), 3);
}

#[test]
fn probe_asks_for_full_paths_of_kept_entries_only() {
    let answer = Some(vec![
        Some("nowhere".to_string()),
        Some("src".to_string()),
        Some("tests/feeders.rs".to_string()),
    ]);
    let request = glob_request("*", None).unwrap();
    let candidates = DirItems::dirs().use_full_paths().probe(&request, &answer, 10);
    assert_eq!(candidates.len(), 3);
    assert!(candidates[0].full_path.is_none());
    assert!(candidates[1].full_path.as_ref().unwrap().ends_with("/src"));
    assert!(candidates[2].full_path.is_none());
}

#[test]
fn dir_items_suggests_no_hidden_entry() {
    let di = DirItems::new();
    for dir in ["", "/", "/etc/", "~/", "/usr/"] {
        for path in di.query(dir, 0, 10000) {
            let name = path.rsplit('/').next().unwrap();
            assert!(!name.starts_with('.'), "{:?} for {:?}", path, dir);
        }
    }
}
