use bstools::environment::EnvVar;
use bstools::environment::Environment;
use bstools::models::DispatchError;
use bstools::models::Runner;
use bstools::models::RunnerCommand;
use bstools::models::Strategy;
use bstools::runner::get_runners;
use bstools::runner::run_command;

fn args(list: &[&str]) -> Vec<String> {
    list.iter().map(|a| a.to_string()).collect()
}

fn env(pairs: &[(&str, &str)]) -> Environment {
    Environment {
        vars: pairs
            .iter()
            .map(|(name, value)| EnvVar { name: name.to_string(), value: value.to_string() })
            .collect(),
    }
}

fn command(path: &str, rest: &[&str], runner: Runner) -> RunnerCommand {
    RunnerCommand { command_path: path.to_string(), args: args(rest), runner }
}

#[test]
fn registry_holds_the_four_runners_in_order() {
    let runners = get_runners(&"/home".to_string());
    assert_eq!(runners.len(), 4);
    assert_eq!(runners[0].name, "executables");
    assert_eq!(runners[0].path, "/home/executables");
    assert!(matches!(runners[0].strategy, Strategy::DirectExecutable));
    assert_eq!(runners[1].name, "python");
    assert_eq!(runners[1].path, "/home/python");
    match &runners[1].strategy {
        Strategy::InterpretedScript { env_var } => assert_eq!(env_var, "BS_PYTHON"),
        _ => panic!("the python runner is interpreted"),
    }
    assert_eq!(runners[2].name, "commands");
    assert_eq!(runners[2].path, "/home/commands");
    assert!(matches!(runners[2].strategy, Strategy::CommandAlias));
    assert_eq!(runners[3].name, "java");
    assert_eq!(runners[3].path, "/home/java");
    match &runners[3].strategy {
        Strategy::ArchiveRuntime { env_var, launch_flag } => {
            assert_eq!(env_var, "BS_JAVA");
            assert_eq!(launch_flag, "-jar");
        }
        _ => panic!("the java runner launches archives"),
    }
}

#[test]
fn direct_executable_passes_arguments_through() {
    let runner = Runner {
        name: "executables".to_string(),
        path: "/home/executables".to_string(),
        strategy: Strategy::DirectExecutable,
    };
    let invocation = run_command(
        command("/home/executables/tool", &["-v", "x"], runner),
        &env(&[]),
        None,
    )
    .expect("a direct executable needs no configuration");
    assert_eq!(invocation.program, "/home/executables/tool");
    assert_eq!(invocation.argv, vec!["-v".to_string(), "x".to_string()]);
}

#[test]
fn interpreted_script_prefixes_the_command_path() {
    let runner = Runner {
        name: "python".to_string(),
        path: "/home/python".to_string(),
        strategy: Strategy::InterpretedScript { env_var: "BS_PYTHON".to_string() },
    };
    let invocation = run_command(
        command("/home/python/scripts/deploy", &["--force"], runner),
        &env(&[("BS_PYTHON", "/usr/bin/python3")]),
        None,
    )
    .expect("the interpreter path is configured");
    assert_eq!(invocation.program, "/usr/bin/python3");
    assert_eq!(
        invocation.argv,
        vec!["/home/python/scripts/deploy".to_string(), "--force".to_string()]
    );
}

#[test]
fn interpreted_script_without_interpreter_is_fatal() {
    let runner = Runner {
        name: "python".to_string(),
        path: "/home/python".to_string(),
        strategy: Strategy::InterpretedScript { env_var: "BS_PYTHON".to_string() },
    };
    let outcome = run_command(
        command("/home/python/tool", &[], runner),
        &env(&[("OTHER", "/elsewhere")]),
        None,
    );
    match outcome {
        Err(DispatchError::MissingEnvironmentVariable { name }) => {
            assert_eq!(name, "BS_PYTHON");
        }
        _ => panic!("a missing interpreter variable is a fatal misconfiguration"),
    }
}

#[test]
fn archive_runtime_inserts_flag_and_path() {
    let runner = Runner {
        name: "java".to_string(),
        path: "/home/java".to_string(),
        strategy: Strategy::ArchiveRuntime {
            env_var: "BS_JAVA".to_string(),
            launch_flag: "-jar".to_string(),
        },
    };
    let invocation = run_command(
        command("/home/java/app.jar", &["serve", "8080"], runner),
        &env(&[("BS_JAVA", "/usr/bin/java")]),
        None,
    )
    .expect("the launcher path is configured");
    assert_eq!(invocation.program, "/usr/bin/java");
    assert_eq!(
        invocation.argv,
        vec![
            "-jar".to_string(),
            "/home/java/app.jar".to_string(),
            "serve".to_string(),
            "8080".to_string()
        ]
    );
}

#[test]
fn archive_runtime_without_launcher_is_fatal() {
    let runner = Runner {
        name: "java".to_string(),
        path: "/home/java".to_string(),
        strategy: Strategy::ArchiveRuntime {
            env_var: "BS_JAVA".to_string(),
            launch_flag: "-jar".to_string(),
        },
    };
    let outcome = run_command(command("/home/java/app.jar", &[], runner), &env(&[]), None);
    match outcome {
        Err(DispatchError::MissingEnvironmentVariable { name }) => {
            assert_eq!(name, "BS_JAVA");
        }
        _ => panic!("a missing launcher variable is a fatal misconfiguration"),
    }
}

#[test]
fn command_alias_substitutes_through_the_dispatcher() {
    let runner = Runner {
        name: "commands".to_string(),
        path: "/home/commands".to_string(),
        strategy: Strategy::CommandAlias,
    };
    let invocation = run_command(
        command("/home/commands/greet", &["a", "b", "c"], runner),
        &env(&[]),
        Some("echo %s and %s"),
    )
    .expect("two tokens, three arguments");
    assert_eq!(invocation.program, "echo");
    assert_eq!(
        invocation.argv,
        vec!["a".to_string(), "and".to_string(), "b".to_string(), "c".to_string()]
    );
}

#[test]
fn command_alias_multi_line_is_fatal_through_the_dispatcher() {
    let runner = Runner {
        name: "commands".to_string(),
        path: "/home/commands".to_string(),
        strategy: Strategy::CommandAlias,
    };
    let outcome = run_command(
        command("/home/commands/bad", &[], runner),
        &env(&[]),
        Some("one\ntwo"),
    );
    assert!(matches!(outcome, Err(DispatchError::MultiLineAlias)));
}

#[test]
fn environment_lookup_returns_the_first_match() {
    let environment = env(&[("PATH_A", "first"), ("PATH_A", "second"), ("PATH_B", "other")]);
    assert_eq!(
        environment.get_environment_variable(&"PATH_A".to_string()),
        Some("first".to_string())
    );
    assert_eq!(
        environment.get_environment_variable(&"PATH_B".to_string()),
        Some("other".to_string())
    );
    assert_eq!(environment.get_environment_variable(&"PATH_C".to_string()), None);
}
