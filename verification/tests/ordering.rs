use sysdep::names::{dedup_names, insert_sorted, sort_names, sorted_set};
use sysdep::order::name_less;

fn strings(items: &[&str]) -> Vec<String> {
    items.iter().map(|s| s.to_string()).collect()
}

#[test]
fn name_less_orders_byte_by_byte() {
    assert!(name_less("curl", "git"));
    assert!(!name_less("git", "curl"));
    assert!(name_less("Zlib", "apt"));
    assert!(name_less("lib1", "liba"));
    assert!(name_less("a-b", "a_b"));
}

#[test]
fn name_less_puts_a_prefix_first() {
    assert!(name_less("git", "git-lfs"));
    assert!(!name_less("git-lfs", "git"));
    assert!(name_less("", "a"));
    assert!(!name_less("a", ""));
}

#[test]
fn name_less_is_strict() {
    assert!(!name_less("git", "git"));
    assert!(!name_less("", ""));
}

#[test]
fn name_less_agrees_with_str_beyond_ascii() {
    let samples = ["", "a", "z", "é", "ée", "z\u{7f}", "\u{80}", "日本", "日", "😀", "\u{ffff}", "zz"];
    for a in samples {
        for b in samples {
            assert_eq!(name_less(a, b), a < b, "{:?} {:?}", a, b);
        }
    }
}

#[test]
fn insert_sorted_keeps_the_list_ascending() {
    let mut list = strings(&["curl", "git", "wget"]);
    insert_sorted(&mut list, "make".to_string());
    assert_eq!(list, strings(&["curl", "git", "make", "wget"]));
    insert_sorted(&mut list, "apt".to_string());
    assert_eq!(list, strings(&["apt", "curl", "git", "make", "wget"]));
    insert_sorted(&mut list, "zip".to_string());
    assert_eq!(list, strings(&["apt", "curl", "git", "make", "wget", "zip"]));
    insert_sorted(&mut list, "git".to_string());
    assert_eq!(list, strings(&["apt", "curl", "git", "git", "make", "wget", "zip"]));
}

#[test]
fn insert_sorted_into_empty_list() {
    let mut list: Vec<String> = Vec::new();
    insert_sorted(&mut list, "git".to_string());
    assert_eq!(list, strings(&["git"]));
}

#[test]
fn sort_names_keeps_every_occurrence() {
    let sorted = sort_names(strings(&["git", "curl", "wget", "curl", "apt", "git"]));
    assert_eq!(sorted, strings(&["apt", "curl", "curl", "git", "git", "wget"]));
}

#[test]
fn sort_names_of_nothing_is_nothing() {
    assert!(sort_names(Vec::new()).is_empty());
}

#[test]
fn sort_names_agrees_with_slice_sort() {
    let input = strings(&["pkg-b", "Pkg", "pkg", "pkg_a", "é", "pkg1", "", "z", "日本", "pkg"]);
    let mut expected = input.clone();
    expected.sort();
    assert_eq!(sort_names(input), expected);
}

#[test]
fn dedup_names_cuts_runs_only() {
    let kept = dedup_names(strings(&["a", "a", "b", "a", "a", "a", "c", "c"]));
    assert_eq!(kept, strings(&["a", "b", "a", "c"]));
}

#[test]
fn dedup_names_of_short_lists() {
    assert!(dedup_names(Vec::new()).is_empty());
    assert_eq!(dedup_names(strings(&["git"])), strings(&["git"]));
    assert_eq!(dedup_names(strings(&["git", "git"])), strings(&["git"]));
}

#[test]
fn sorted_set_sorts_and_drops_repetitions() {
    let merged = sorted_set(strings(&["git", "curl", "git", "wget", "curl", "git"]));
    assert_eq!(merged, strings(&["curl", "git", "wget"]));
}

#[test]
fn sorted_set_agrees_with_sort_then_dedup() {
    let input = strings(&["b", "a", "é", "b", "B", "a", "", "b", "", "日本", "é"]);
    let mut expected = input.clone();
    expected.sort();
    expected.dedup();
    assert_eq!(sorted_set(input), expected);
}

#[test]
fn sorted_set_twice_is_sorted_set_once() {
    let once = sorted_set(strings(&["git", "curl", "git", "apt"]));
    let twice = sorted_set(once.clone());
    assert_eq!(once, twice);
}
