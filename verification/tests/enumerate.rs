use bstools::filesystem::FileSystem;
use bstools::models::FileSystemEntry;
use bstools::models::Runner;
use bstools::models::Strategy;
use bstools::runner::get_options;
use bstools::runner::get_root_options;

fn entry(name: &str, path: &str, is_directory: bool) -> FileSystemEntry {
    FileSystemEntry { name: name.to_string(), path: path.to_string(), is_directory }
}

fn plain_runner(name: &str, path: &str) -> Runner {
    Runner { name: name.to_string(), path: path.to_string(), strategy: Strategy::DirectExecutable }
}

fn args(list: &[&str]) -> Vec<String> {
    list.iter().map(|a| a.to_string()).collect()
}

fn names(listing: &[FileSystemEntry]) -> Vec<String> {
    listing.iter().map(|e| e.name.clone()).collect()
}

fn unsorted_tree() -> FileSystem {
    FileSystem {
        entries: vec![
            entry("scripts", "/root/scripts", true),
            entry("carrot", "/root/scripts/carrot", false),
            entry("apple", "/root/scripts/apple", false),
            entry("banana", "/root/scripts/banana", true),
        ],
    }
}

#[test]
fn enumerate_lists_exactly_the_entries_present_sorted() {
    let fs = unsorted_tree();
    let runners = vec![plain_runner("only", "/root")];
    let listing = get_options(&fs, &runners, &args(&["scripts"]))
        .expect("the prefix resolves under the runner");
    assert_eq!(
        names(&listing),
        vec!["apple".to_string(), "banana".to_string(), "carrot".to_string()]
    );
    assert_eq!(listing[0].path, "/root/scripts/apple");
    assert_eq!(listing[1].path, "/root/scripts/banana");
    assert_eq!(listing[2].path, "/root/scripts/carrot");
}

#[test]
fn enumerate_is_order_stable_across_repeated_calls() {
    let fs = unsorted_tree();
    let runners = vec![plain_runner("only", "/root")];
    let first = get_options(&fs, &runners, &args(&["scripts"])).expect("prefix resolves");
    let second = get_options(&fs, &runners, &args(&["scripts"])).expect("prefix resolves");
    assert_eq!(first.len(), second.len());
    for (a, b) in first.iter().zip(second.iter()) {
        assert_eq!(a.name, b.name);
        assert_eq!(a.path, b.path);
        assert_eq!(a.is_directory, b.is_directory);
    }
}

#[test]
fn enumerate_empty_directory_is_some_empty() {
    let fs = FileSystem { entries: vec![entry("empty", "/root/empty", true)] };
    let runners = vec![plain_runner("only", "/root")];
    let listing = get_options(&fs, &runners, &args(&["empty"]))
        .expect("the prefix resolves, so an empty listing is owed");
    assert!(listing.is_empty());
}

#[test]
fn enumerate_invalid_prefix_is_none() {
    let fs = FileSystem { entries: vec![entry("empty", "/root/empty", true)] };
    let runners = vec![plain_runner("only", "/root")];
    assert!(get_options(&fs, &runners, &args(&["absent"])).is_none());
}

#[test]
fn enumerate_merges_runners_and_breaks_name_ties_by_runner_order() {
    let fs = FileSystem {
        entries: vec![
            entry("zeta", "/one/zeta", false),
            entry("same", "/one/same", false),
            entry("same", "/two/same", false),
            entry("alpha", "/two/alpha", false),
        ],
    };
    let runners = vec![plain_runner("one", "/one"), plain_runner("two", "/two")];
    let listing = get_options(&fs, &runners, &args(&[])).expect("roots always resolve");
    assert_eq!(
        names(&listing),
        vec![
            "alpha".to_string(),
            "same".to_string(),
            "same".to_string(),
            "zeta".to_string()
        ]
    );
    assert_eq!(listing[1].path, "/one/same");
    assert_eq!(listing[2].path, "/two/same");
}

#[test]
fn enumerate_counts_a_file_prefix_as_found() {
    let fs = FileSystem { entries: vec![entry("plain", "/root/plain", false)] };
    let runners = vec![plain_runner("only", "/root")];
    let listing = get_options(&fs, &runners, &args(&["plain"]))
        .expect("an existing file segment still counts as a resolved prefix");
    assert!(listing.is_empty());
}

#[test]
fn root_options_merge_and_sort_all_runner_roots() {
    let fs = FileSystem {
        entries: vec![
            entry("delta", "/one/delta", false),
            entry("alpha", "/two/alpha", true),
            entry("charlie", "/one/charlie", false),
        ],
    };
    let runners = vec![plain_runner("one", "/one"), plain_runner("two", "/two")];
    let listing = get_root_options(&fs, &runners);
    assert_eq!(
        names(&listing),
        vec!["alpha".to_string(), "charlie".to_string(), "delta".to_string()]
    );
}

#[test]
fn root_options_of_unknown_roots_are_empty() {
    let fs = FileSystem { entries: vec![] };
    let runners = vec![plain_runner("one", "/one")];
    assert!(get_root_options(&fs, &runners).is_empty());
}
