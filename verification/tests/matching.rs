use ds_sweep::ignore::ends_with;
use ds_sweep::ignore::should_ignore;

fn p(parts: &[&str]) -> Vec<String> {
    parts.iter().map(|s| s.to_string()).collect()
}

#[test]
fn single_component_suffix_matches() {
    assert!(ends_with(&p(&["Users", "me", "Library"]), &p(&["Library"])));
}

#[test]
fn component_match_is_not_substring_match() {
    assert!(!ends_with(&p(&["Users", "me", "NotLibrary"]), &p(&["Library"])));
}

#[test]
fn multi_component_suffix_matches() {
    assert!(ends_with(&p(&["Users", "me", "Library"]), &p(&["me", "Library"])));
    assert!(!ends_with(&p(&["Users", "you", "Library"]), &p(&["me", "Library"])));
}

#[test]
fn inner_component_alone_does_not_match() {
    assert!(!ends_with(&p(&["Users", "Library", "Caches"]), &p(&["Library"])));
}

#[test]
fn empty_entry_matches_nothing() {
    assert!(!ends_with(&p(&["Users", "me"]), &p(&[])));
}

#[test]
fn entry_longer_than_path_does_not_match() {
    assert!(!ends_with(&p(&["Library"]), &p(&["me", "Library"])));
}

#[test]
fn any_listed_entry_ignores_the_directory() {
    let ignores = vec![p(&["Caches"]), p(&["Library"])];
    assert!(should_ignore(&ignores, &p(&["Users", "me", "Library"])));
    assert!(should_ignore(&ignores, &p(&["Users", "me", "Caches"])));
    assert!(!should_ignore(&ignores, &p(&["Users", "me", "Documents"])));
}

#[test]
fn empty_ignore_list_ignores_nothing() {
    let ignores: Vec<Vec<String>> = vec![];
    assert!(!should_ignore(&ignores, &p(&["Users", "me", "Library"])));
}
