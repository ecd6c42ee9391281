use bstools::alias::build_alias_invocation;
use bstools::models::DispatchError;

fn args(list: &[&str]) -> Vec<String> {
    list.iter().map(|a| a.to_string()).collect()
}

#[test]
fn substitution_consumes_tokens_and_appends_leftovers() {
    let invocation = build_alias_invocation("echo %s and %s", &args(&["a", "b", "c"]))
        .expect("two tokens, three arguments: the alias builds");
    assert_eq!(invocation.program, "echo");
    assert_eq!(
        invocation.argv,
        vec!["a".to_string(), "and".to_string(), "b".to_string(), "c".to_string()]
    );
}

#[test]
fn substitution_with_exactly_enough_arguments() {
    let invocation = build_alias_invocation("copy %s %s", &args(&["src", "dst"]))
        .expect("two tokens, two arguments: the alias builds");
    assert_eq!(invocation.program, "copy");
    assert_eq!(invocation.argv, vec!["src".to_string(), "dst".to_string()]);
}

#[test]
fn missing_argument_fails_citing_the_alias_text() {
    let outcome = build_alias_invocation("run %s %s", &args(&["x"]));
    match outcome {
        Err(DispatchError::MissingAliasArgument { alias_text }) => {
            assert_eq!(alias_text, "run %s %s");
        }
        _ => panic!("an unmet token must fail with the missing-argument error"),
    }
}

#[test]
fn multi_line_alias_is_rejected() {
    let outcome = build_alias_invocation("first line\nsecond line", &args(&[]));
    assert!(matches!(outcome, Err(DispatchError::MultiLineAlias)));
}

#[test]
fn multi_line_check_precedes_substitution() {
    let outcome = build_alias_invocation("echo %s\nmore", &args(&[]));
    assert!(
        matches!(outcome, Err(DispatchError::MultiLineAlias)),
        "the multi-line check comes before the token count check"
    );
}

#[test]
fn alias_without_tokens_passes_arguments_through() {
    let invocation = build_alias_invocation("git status", &args(&["--short"]))
        .expect("no tokens: nothing to satisfy");
    assert_eq!(invocation.program, "git");
    assert_eq!(invocation.argv, vec!["status".to_string(), "--short".to_string()]);
}

#[test]
fn alias_token_at_the_start_is_substituted() {
    let invocation = build_alias_invocation("%s --version", &args(&["python3"]))
        .expect("one token, one argument");
    assert_eq!(invocation.program, "python3");
    assert_eq!(invocation.argv, vec!["--version".to_string()]);
}

#[test]
fn alias_substitution_is_a_naive_space_split() {
    let invocation = build_alias_invocation("say %s", &args(&["hello world"]))
        .expect("one token, one argument");
    assert_eq!(invocation.program, "say");
    assert_eq!(invocation.argv, vec!["hello".to_string(), "world".to_string()]);
}

#[test]
fn empty_alias_line_builds_an_empty_program() {
    let invocation = build_alias_invocation("", &args(&[])).expect("nothing to substitute");
    assert_eq!(invocation.program, "");
    assert!(invocation.argv.is_empty());
}
