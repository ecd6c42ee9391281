use bstools::filesystem::FileSystem;
use bstools::models::FileSystemEntry;
use bstools::models::Resolution;
use bstools::models::Runner;
use bstools::models::Strategy;
use bstools::runner::get_command;
use bstools::runner::get_command_from_path;
use bstools::runner::resolve;

fn entry(name: &str, path: &str, is_directory: bool) -> FileSystemEntry {
    FileSystemEntry { name: name.to_string(), path: path.to_string(), is_directory }
}

fn plain_runner(name: &str, path: &str) -> Runner {
    Runner { name: name.to_string(), path: path.to_string(), strategy: Strategy::DirectExecutable }
}

fn args(list: &[&str]) -> Vec<String> {
    list.iter().map(|a| a.to_string()).collect()
}

fn python_tree() -> FileSystem {
    FileSystem {
        entries: vec![
            entry("scripts", "/home/python/scripts", true),
            entry("deploy", "/home/python/scripts/deploy", false),
        ],
    }
}

#[test]
fn walk_resolves_file_at_depth_two() {
    let fs = python_tree();
    let root = "/home/python".to_string();
    let found = get_command_from_path(&fs, &root, &args(&["scripts", "deploy"]));
    let details = found.expect("the walk should land on the deploy file");
    assert_eq!(details.command_path, "/home/python/scripts/deploy");
    assert!(details.args.is_empty());
}

#[test]
fn walk_keeps_unconsumed_arguments() {
    let fs = python_tree();
    let root = "/home/python".to_string();
    let found = get_command_from_path(&fs, &root, &args(&["scripts", "deploy", "--force"]));
    let details = found.expect("the walk should land on the deploy file");
    assert_eq!(details.command_path, "/home/python/scripts/deploy");
    assert_eq!(details.args, vec!["--force".to_string()]);
}

#[test]
fn walk_stops_on_missing_segment() {
    let fs = python_tree();
    let root = "/home/python".to_string();
    assert!(get_command_from_path(&fs, &root, &args(&["scripts", "absent"])).is_none());
}

#[test]
fn walk_yields_nothing_inside_directories() {
    let fs = python_tree();
    let root = "/home/python".to_string();
    assert!(get_command_from_path(&fs, &root, &args(&["scripts"])).is_none());
}

#[test]
fn walk_with_no_arguments_yields_nothing() {
    let fs = python_tree();
    let root = "/home/python".to_string();
    assert!(get_command_from_path(&fs, &root, &args(&[])).is_none());
}

#[test]
fn resolve_reports_the_unique_match() {
    let fs = FileSystem {
        entries: vec![
            entry("build", "/one/build", false),
            entry("other", "/two/other", false),
        ],
    };
    let runners = vec![plain_runner("one", "/one"), plain_runner("two", "/two")];
    match resolve(&fs, &runners, &args(&["build"])) {
        Resolution::Resolved(command) => {
            assert_eq!(command.command_path, "/one/build");
            assert!(command.args.is_empty());
            assert_eq!(command.runner.name, "one");
        }
        _ => panic!("exactly one runner matches, so the command must resolve"),
    }
}

#[test]
fn resolve_reports_ambiguity_on_overlapping_runners() {
    let fs = FileSystem {
        entries: vec![
            entry("build", "/one/build", false),
            entry("build", "/two/build", false),
        ],
    };
    let runners = vec![plain_runner("one", "/one"), plain_runner("two", "/two")];
    assert!(matches!(
        resolve(&fs, &runners, &args(&["build"])),
        Resolution::Ambiguous
    ));
}

#[test]
fn resolve_reports_not_found_without_any_match() {
    let fs = python_tree();
    let runners = vec![plain_runner("python", "/home/python")];
    assert!(matches!(
        resolve(&fs, &runners, &args(&["absent"])),
        Resolution::NotFound
    ));
}

#[test]
fn resolve_with_empty_arguments_never_matches() {
    let fs = python_tree();
    let runners = vec![plain_runner("python", "/home/python")];
    assert!(matches!(
        resolve(&fs, &runners, &args(&[])),
        Resolution::NotFound
    ));
}

#[test]
fn get_command_returns_the_unique_match() {
    let fs = python_tree();
    let runners = vec![plain_runner("python", "/home/python")];
    let command = get_command(&fs, &runners, &args(&["scripts", "deploy", "--force"]))
        .expect("the unique match must be returned");
    assert_eq!(command.command_path, "/home/python/scripts/deploy");
    assert_eq!(command.args, vec!["--force".to_string()]);
    assert_eq!(command.runner.name, "python");
    assert_eq!(command.runner.path, "/home/python");
}

#[test]
fn get_command_returns_nothing_without_a_match() {
    let fs = python_tree();
    let runners = vec![plain_runner("python", "/home/python")];
    assert!(get_command(&fs, &runners, &args(&["absent"])).is_none());
}
