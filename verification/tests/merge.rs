use pydist::error::ProvisionError;
use pydist::merge::{check_copy, merge_policy, merge_selection, MergePolicy};

fn names(list: &[&str]) -> Vec<String> {
    list.iter().map(|s| s.to_string()).collect()
}

/// A directory as name and content pairs, and the merge as the library
/// selects it: every chosen entry is added, nothing else is touched.
fn merged(destination: &[(&str, &str)], source: &[(&str, &str)]) -> Vec<(String, String)> {
    let existing: Vec<String> = destination.iter().map(|e| e.0.to_string()).collect();
    let offered: Vec<String> = source.iter().map(|e| e.0.to_string()).collect();
    let chosen = merge_selection(&offered, &existing);
    let mut result: Vec<(String, String)> =
        destination.iter().map(|e| (e.0.to_string(), e.1.to_string())).collect();
    for name in chosen {
        let content = source.iter().find(|e| e.0 == name).unwrap().1;
        result.push((name, content.to_string()));
    }
    result
}

#[test]
fn policy_never_overwrites() {
    assert_eq!(merge_policy(), MergePolicy { overwrite: false, skip_existing: true });
}

#[test]
fn existing_file_keeps_its_content() {
    let result = merged(&[("a.py", "ORIGINAL")], &[("a.py", "NEW")]);
    assert_eq!(result, vec![("a.py".to_string(), "ORIGINAL".to_string())]);
}

#[test]
fn missing_entries_are_added_and_existing_ones_kept() {
    let result = merged(
        &[("a.py", "ORIGINAL"), ("python39.zip", "Z")],
        &[("a.py", "NEW"), ("python39.lib", "L"), ("python3.lib", "M")],
    );
    assert_eq!(
        result,
        vec![
            ("a.py".to_string(), "ORIGINAL".to_string()),
            ("python39.zip".to_string(), "Z".to_string()),
            ("python39.lib".to_string(), "L".to_string()),
            ("python3.lib".to_string(), "M".to_string()),
        ]
    );
}

#[test]
fn selection_keeps_the_order_of_the_source() {
    let chosen = merge_selection(&names(&["d", "a", "c", "b"]), &names(&["c", "x"]));
    assert_eq!(chosen, names(&["d", "a", "b"]));
}

#[test]
fn selection_from_empty_source_is_empty() {
    assert_eq!(merge_selection(&names(&[]), &names(&["a"])), names(&[]));
}

#[test]
fn selection_into_empty_destination_is_the_source() {
    assert_eq!(merge_selection(&names(&["a", "b"]), &names(&[])), names(&["a", "b"]));
}

#[test]
fn selection_is_empty_where_everything_exists() {
    assert_eq!(merge_selection(&names(&["a", "b"]), &names(&["b", "a", "c"])), names(&[]));
}

#[test]
fn names_are_compared_exactly() {
    let chosen = merge_selection(&names(&["a.py", "A.py", "a.py ", "a"]), &names(&["a.py"]));
    assert_eq!(chosen, names(&["A.py", "a.py ", "a"]));
}

#[test]
fn failed_copy_is_copy_error() {
    assert_eq!(check_copy("pydist", true), Ok(()));
    let failed = check_copy("pydist", false);
    assert_eq!(failed, Err(ProvisionError::CopyError { path: "pydist".to_string() }));
    assert_eq!(failed.unwrap_err().message(), "Could not copy the host libraries into pydist");
}
