//! The command resolver and its collaborators: building the fixed runner
//! registry, walking each runner's directory tree to consume arguments as
//! path segments, detecting cross-runner ambiguity, enumerating the options
//! available at an argument prefix, and building the process invocation for
//! a resolved command.

use vstd::prelude::*;
use vstd::pervasive::unreached;

use crate::alias::build_alias_invocation;
use crate::alias::dispatch_result_model;
use crate::alias::spec_alias_invocation;
use crate::environment::spec_env_lookup;
use crate::environment::Environment;
use crate::filesystem::child_path;
use crate::filesystem::spec_children;
use crate::filesystem::spec_lookup;
use crate::filesystem::FileSystem;
use crate::models::CommandDetails;
use crate::models::CommandDetailsModel;
use crate::models::DispatchError;
use crate::models::DispatchErrorModel;
use crate::models::EntryModel;
use crate::models::FileSystemEntry;
use crate::models::Invocation;
use crate::models::InvocationModel;
use crate::models::Resolution;
use crate::models::Runner;
use crate::models::RunnerCommand;
use crate::models::RunnerModel;
use crate::models::Strategy;
use crate::order::entries_sorted;
use crate::order::sort_entries;
use crate::order::spec_sort_entries;

verus! {

/// The fixed registry: every runner this tool supports, rooted under the
/// given home directory, in registry order.
pub fn get_runners(home_path: &String) -> (r: Vec<Runner>)
    ensures
        r.deep_view().len() == 4,
        r.deep_view()[0] == (RunnerModel {
            name: "executables"@,
            path: child_path(home_path@, "executables"@),
            strategy: crate::models::StrategyModel::DirectExecutable,
        }),
        r.deep_view()[1] == (RunnerModel {
            name: "python"@,
            path: child_path(home_path@, "python"@),
            strategy: crate::models::StrategyModel::InterpretedScript { env_var: "BS_PYTHON"@ },
        }),
        r.deep_view()[2] == (RunnerModel {
            name: "commands"@,
            path: child_path(home_path@, "commands"@),
            strategy: crate::models::StrategyModel::CommandAlias,
        }),
        r.deep_view()[3] == (RunnerModel {
            name: "java"@,
            path: child_path(home_path@, "java"@),
            strategy: crate::models::StrategyModel::ArchiveRuntime {
                env_var: "BS_JAVA"@,
                launch_flag: "-jar"@,
            },
        }),
{
    let mut runners: Vec<Runner> = Vec::new();

    let mut executables_path = home_path.clone();
    executables_path.append("/");
    executables_path.append("executables");
    runners.push(
        Runner {
            name: "executables".to_owned(),
            path: executables_path,
            strategy: Strategy::DirectExecutable,
        },
    );

    let mut python_path = home_path.clone();
    python_path.append("/");
    python_path.append("python");
    runners.push(
        Runner {
            name: "python".to_owned(),
            path: python_path,
            strategy: Strategy::InterpretedScript { env_var: "BS_PYTHON".to_owned() },
        },
    );

    let mut commands_path = home_path.clone();
    commands_path.append("/");
    commands_path.append("commands");
    runners.push(
        Runner {
            name: "commands".to_owned(),
            path: commands_path,
            strategy: Strategy::CommandAlias,
        },
    );

    let mut java_path = home_path.clone();
    java_path.append("/");
    java_path.append("java");
    runners.push(
        Runner {
            name: "java".to_owned(),
            path: java_path,
            strategy: Strategy::ArchiveRuntime {
                env_var: "BS_JAVA".to_owned(),
                launch_flag: "-jar".to_owned(),
            },
        },
    );

    runners
}

/// One runner's walk: arguments are consumed as path segments from the
/// current position. A missing segment aborts the walk with no match; a
/// directory segment continues the walk; the first non-directory segment is
/// the resolved command, and the arguments not yet consumed remain.
pub open spec fn spec_walk(
    entries: Seq<EntryModel>,
    cur: Seq<char>,
    args: Seq<Seq<char>>,
) -> Option<CommandDetailsModel>
    decreases args.len(),
{
    if args.len() == 0 {
        None
    } else {
        let p = child_path(cur, args[0]);
        match spec_lookup(entries, p) {
            None => None,
            Some(e) => if e.is_directory {
                spec_walk(entries, p, args.drop_first())
            } else {
                Some(CommandDetailsModel { command_path: p, args: args.drop_first() })
            },
        }
    }
}

/// Whether one runner's walk reports a match for these arguments.
pub open spec fn runner_matches(
    entries: Seq<EntryModel>,
    runner: RunnerModel,
    args: Seq<Seq<char>>,
) -> bool {
    spec_walk(entries, runner.path, args) matches Some(_)
}

/// How many runners report a match for these arguments.
pub open spec fn match_count(
    entries: Seq<EntryModel>,
    runners: Seq<RunnerModel>,
    args: Seq<Seq<char>>,
) -> nat
    decreases runners.len(),
{
    if runners.len() == 0 {
        0
    } else {
        match_count(entries, runners.drop_last(), args) + (if runner_matches(
            entries,
            runners.last(),
            args,
        ) {
            1nat
        } else {
            0nat
        })
    }
}

/// A runner that matches contributes to the count.
pub proof fn lemma_match_count_at_least_one(
    entries: Seq<EntryModel>,
    runners: Seq<RunnerModel>,
    args: Seq<Seq<char>>,
    i: int,
)
    requires
        0 <= i < runners.len(),
        runner_matches(entries, runners[i], args),
    ensures
        match_count(entries, runners, args) >= 1,
    decreases runners.len(),
{
    if i == runners.len() - 1 {
    } else {
        lemma_match_count_at_least_one(entries, runners.drop_last(), args, i);
    }
}

/// At most one runner may resolve a given argument list: whenever two
/// distinct runners both report a match, the match count is at least two,
/// so `resolve` reports `Ambiguous` and never silently picks either.
pub proof fn lemma_two_matches_ambiguous(
    entries: Seq<EntryModel>,
    runners: Seq<RunnerModel>,
    args: Seq<Seq<char>>,
    i: int,
    j: int,
)
    requires
        0 <= i < j < runners.len(),
        runner_matches(entries, runners[i], args),
        runner_matches(entries, runners[j], args),
    ensures
        match_count(entries, runners, args) >= 2,
    decreases runners.len(),
{
    if j == runners.len() - 1 {
        lemma_match_count_at_least_one(entries, runners.drop_last(), args, i);
    } else {
        lemma_two_matches_ambiguous(entries, runners.drop_last(), args, i, j);
    }
}

/// A prefix of the registry never counts more matches than the whole.
proof fn lemma_match_count_prefix(
    entries: Seq<EntryModel>,
    runners: Seq<RunnerModel>,
    args: Seq<Seq<char>>,
    i: int,
)
    requires
        0 <= i <= runners.len(),
    ensures
        match_count(entries, runners.take(i), args) <= match_count(entries, runners, args),
    decreases runners.len() - i,
{
    if i == runners.len() {
        assert(runners.take(i) =~= runners);
    } else {
        lemma_match_count_prefix(entries, runners, args, i + 1);
        assert(runners.take(i + 1).drop_last() =~= runners.take(i));
        assert(runners.take(i + 1).last() == runners[i]);
    }
}

/// Walks one runner's tree. Arguments are consumed as path segments until
/// the first non-directory entry, which is the resolved command; the
/// arguments after it are handed back unconsumed. A missing segment, or an
/// argument list that is exhausted while still inside directories, yields
/// no match.
pub fn get_command_from_path(fs: &FileSystem, root_path: &String, args: &Vec<String>) -> (r:
    Option<CommandDetails>)
    ensures
        r.deep_view() == spec_walk(fs@, root_path@, args.deep_view()),
{
    let mut path = root_path.clone();
    let n = args.len();
    let mut i: usize = 0;
    assert(args.deep_view().skip(0) =~= args.deep_view());
    while i < n
        invariant
            0 <= i <= n,
            n == args.len(),
            spec_walk(fs@, root_path@, args.deep_view()) == spec_walk(
                fs@,
                path@,
                args.deep_view().skip(i as int),
            ),
        decreases n - i,
    {
        path.append("/");
        path.append(args[i].as_str());
        proof {
            assert(args.deep_view().skip(i as int)[0] == args.deep_view()[i as int]);
            assert(args.deep_view().skip(i as int).drop_first() =~= args.deep_view().skip(
                i as int + 1,
            ));
        }
        match fs.get_entry(&path) {
            None => {
                return None;
            },
            Some(entry) => {
                if !entry.is_directory {
                    let mut rest: Vec<String> = Vec::new();
                    let mut j: usize = i + 1;
                    assert(rest.deep_view() =~= args.deep_view().subrange(
                        i as int + 1,
                        i as int + 1,
                    ));
                    while j < n
                        invariant
                            i + 1 <= j <= n,
                            n == args.len(),
                            rest.deep_view() == args.deep_view().subrange(i as int + 1, j as int),
                        decreases n - j,
                    {
                        let ghost before = rest.deep_view();
                        rest.push(args[j].clone());
                        proof {
                            assert(rest.deep_view() =~= before.push(args.deep_view()[j as int]));
                            assert(rest.deep_view() =~= args.deep_view().subrange(
                                i as int + 1,
                                j as int + 1,
                            ));
                        }
                        j = j + 1;
                    }
                    assert(args.deep_view().subrange(i as int + 1, n as int)
                        =~= args.deep_view().skip(i as int).drop_first());
                    return Some(CommandDetails { command_path: path, args: rest });
                }
            },
        }
        i = i + 1;
    }
    assert(args.deep_view().skip(n as int).len() == 0);
    None
}

/// Tries every runner, in registry order, against the full argument list.
/// Exactly one match resolves; a second match is the fatal ambiguity; no
/// match at all sends the caller to the option enumerator.
pub fn resolve(fs: &FileSystem, runners: &Vec<Runner>, args: &Vec<String>) -> (r: Resolution)
    ensures
        (r matches Resolution::NotFound <==> match_count(fs@, runners.deep_view(), args.deep_view())
            == 0),
        (r matches Resolution::Ambiguous <==> match_count(
            fs@,
            runners.deep_view(),
            args.deep_view(),
        ) >= 2),
        (r matches Resolution::Resolved(c) ==> match_count(fs@, runners.deep_view(), args.deep_view())
            == 1 && exists|k: int|
            0 <= k < runners.deep_view().len() && runner_matches(
                fs@,
                runners.deep_view()[k],
                args.deep_view(),
            ) && c@.runner == runners.deep_view()[k] && spec_walk(
                fs@,
                runners.deep_view()[k].path,
                args.deep_view(),
            ) == Some(CommandDetailsModel { command_path: c@.command_path, args: c@.args })),
{
    let n = runners.len();
    let mut found: Option<RunnerCommand> = None;
    let mut i: usize = 0;
    assert(runners.deep_view().take(0) =~= Seq::<RunnerModel>::empty());
    while i < n
        invariant
            0 <= i <= n,
            n == runners.len(),
            found is None ==> match_count(
                fs@,
                runners.deep_view().take(i as int),
                args.deep_view(),
            ) == 0,
            found matches Some(c) ==> match_count(
                fs@,
                runners.deep_view().take(i as int),
                args.deep_view(),
            ) == 1 && exists|k: int|
                0 <= k < i && runner_matches(fs@, runners.deep_view()[k], args.deep_view())
                    && c@.runner == runners.deep_view()[k] && spec_walk(
                    fs@,
                    runners.deep_view()[k].path,
                    args.deep_view(),
                ) == Some(CommandDetailsModel { command_path: c@.command_path, args: c@.args }),
        decreases n - i,
    {
        proof {
            assert(runners.deep_view().take(i as int + 1).drop_last() =~= runners.deep_view().take(
                i as int,
            ));
            assert(runners.deep_view().take(i as int + 1).last() == runners.deep_view()[i as int]);
        }
        let details_option = get_command_from_path(fs, &runners[i].path, args);
        match details_option {
            Some(details) => {
                if found.is_some() {
                    proof {
                        lemma_match_count_prefix(
                            fs@,
                            runners.deep_view(),
                            args.deep_view(),
                            i as int + 1,
                        );
                    }
                    return Resolution::Ambiguous;
                }
                found = Some(
                    RunnerCommand {
                        command_path: details.command_path,
                        args: details.args,
                        runner: runners[i].duplicate(),
                    },
                );
            },
            None => {},
        }
        i = i + 1;
    }
    assert(runners.deep_view().take(n as int) =~= runners.deep_view());
    match found {
        None => Resolution::NotFound,
        Some(c) => Resolution::Resolved(c),
    }
}

/// Resolves the argument list, on the promise that the registry is not
/// ambiguous for it. Returns the unique match, or nothing when no runner
/// matches.
pub fn get_command(fs: &FileSystem, runners: &Vec<Runner>, args: &Vec<String>) -> (r: Option<
    RunnerCommand,
>)
    requires
        match_count(fs@, runners.deep_view(), args.deep_view()) <= 1,
    ensures
        (r is None <==> match_count(fs@, runners.deep_view(), args.deep_view()) == 0),
        (r matches Some(c) ==> match_count(fs@, runners.deep_view(), args.deep_view()) == 1
            && exists|k: int|
            0 <= k < runners.deep_view().len() && runner_matches(
                fs@,
                runners.deep_view()[k],
                args.deep_view(),
            ) && c@.runner == runners.deep_view()[k] && spec_walk(
                fs@,
                runners.deep_view()[k].path,
                args.deep_view(),
            ) == Some(CommandDetailsModel { command_path: c@.command_path, args: c@.args })),
{
    match resolve(fs, runners, args) {
        Resolution::Resolved(c) => Some(c),
        Resolution::NotFound => None,
        Resolution::Ambiguous => unreached(),
    }
}

/// One runner's prefix walk for enumeration: every segment must exist
/// (directory or not); the resolved depth is where listing happens.
pub open spec fn spec_resolve_prefix(
    entries: Seq<EntryModel>,
    cur: Seq<char>,
    prefix: Seq<Seq<char>>,
) -> Option<Seq<char>>
    decreases prefix.len(),
{
    if prefix.len() == 0 {
        Some(cur)
    } else {
        let p = child_path(cur, prefix[0]);
        match spec_lookup(entries, p) {
            None => None,
            Some(_) => spec_resolve_prefix(entries, p, prefix.drop_first()),
        }
    }
}

/// What one runner contributes to an option listing.
pub open spec fn spec_options_from_path(
    entries: Seq<EntryModel>,
    root: Seq<char>,
    prefix: Seq<Seq<char>>,
) -> Option<Seq<EntryModel>> {
    match spec_resolve_prefix(entries, root, prefix) {
        None => None,
        Some(p) => Some(spec_children(entries, p)),
    }
}

/// Whether any runner resolves the prefix at all. This separates "invalid
/// path" (no runner) from "empty directory" (some runner, no children).
pub open spec fn spec_found_any(
    entries: Seq<EntryModel>,
    runners: Seq<RunnerModel>,
    prefix: Seq<Seq<char>>,
) -> bool {
    exists|k: int|
        0 <= k < runners.len() && (#[trigger] spec_resolve_prefix(
            entries,
            runners[k].path,
            prefix,
        )) matches Some(_)
}

/// The contributions of all runners, merged in registry order, unsorted.
pub open spec fn spec_merged_options(
    entries: Seq<EntryModel>,
    runners: Seq<RunnerModel>,
    prefix: Seq<Seq<char>>,
) -> Seq<EntryModel>
    decreases runners.len(),
{
    if runners.len() == 0 {
        Seq::empty()
    } else {
        spec_merged_options(entries, runners.drop_last(), prefix) + (match spec_resolve_prefix(
            entries,
            runners.last().path,
            prefix,
        ) {
            None => Seq::<EntryModel>::empty(),
            Some(p) => spec_children(entries, p),
        })
    }
}

/// The full enumeration contract: the merged contributions, sorted by
/// name, or nothing when no runner could resolve the prefix.
pub open spec fn spec_enumerate(
    entries: Seq<EntryModel>,
    runners: Seq<RunnerModel>,
    prefix: Seq<Seq<char>>,
) -> Option<Seq<EntryModel>> {
    if spec_found_any(entries, runners, prefix) {
        Some(spec_sort_entries(spec_merged_options(entries, runners, prefix)))
    } else {
        None
    }
}

/// Walks the argument prefix under one runner's root and lists the entries
/// at the resolved depth. A prefix with a missing segment contributes
/// nothing; a resolved prefix with no children contributes an empty list.
pub fn get_options_from_path(fs: &FileSystem, root_path: &String, args: &Vec<String>) -> (r:
    Option<Vec<FileSystemEntry>>)
    ensures
        r.deep_view() == spec_options_from_path(fs@, root_path@, args.deep_view()),
{
    let mut path = root_path.clone();
    let n = args.len();
    let mut i: usize = 0;
    assert(args.deep_view().skip(0) =~= args.deep_view());
    while i < n
        invariant
            0 <= i <= n,
            n == args.len(),
            spec_resolve_prefix(fs@, root_path@, args.deep_view()) == spec_resolve_prefix(
                fs@,
                path@,
                args.deep_view().skip(i as int),
            ),
        decreases n - i,
    {
        path.append("/");
        path.append(args[i].as_str());
        proof {
            assert(args.deep_view().skip(i as int)[0] == args.deep_view()[i as int]);
            assert(args.deep_view().skip(i as int).drop_first() =~= args.deep_view().skip(
                i as int + 1,
            ));
        }
        match fs.get_entry(&path) {
            None => {
                return None;
            },
            Some(_) => {},
        }
        i = i + 1;
    }
    assert(args.deep_view().skip(n as int).len() == 0);
    let listing = fs.get_directory_entries(&path);
    Some(listing)
}

/// Lists every option available at the given argument prefix, across all
/// runners, merged and sorted by name. Returns nothing only when no runner
/// resolves the prefix; a resolved but empty directory yields an empty
/// listing, and the two cases stay distinguishable.
pub fn get_options(fs: &FileSystem, runners: &Vec<Runner>, args: &Vec<String>) -> (r: Option<
    Vec<FileSystemEntry>,
>)
    ensures
        r.deep_view() == spec_enumerate(fs@, runners.deep_view(), args.deep_view()),
{
    let mut results: Vec<FileSystemEntry> = Vec::new();
    let mut found = false;
    let n = runners.len();
    let mut i: usize = 0;
    assert(runners.deep_view().take(0) =~= Seq::<RunnerModel>::empty());
    assert(results.deep_view() =~= Seq::<EntryModel>::empty());
    while i < n
        invariant
            0 <= i <= n,
            n == runners.len(),
            results.deep_view() == spec_merged_options(
                fs@,
                runners.deep_view().take(i as int),
                args.deep_view(),
            ),
            found == spec_found_any(fs@, runners.deep_view().take(i as int), args.deep_view()),
        decreases n - i,
    {
        proof {
            assert(runners.deep_view().take(i as int + 1).drop_last() =~= runners.deep_view().take(
                i as int,
            ));
            assert(runners.deep_view().take(i as int + 1).last() == runners.deep_view()[i as int]);
        }
        let ghost merged_before = results.deep_view();
        let entries_option = get_options_from_path(fs, &runners[i].path, args);
        match entries_option {
            Some(entries_found) => {
                found = true;
                let m = entries_found.len();
                let mut j: usize = 0;
                assert(results.deep_view() =~= merged_before + entries_found.deep_view().take(0));
                while j < m
                    invariant
                        0 <= j <= m,
                        m == entries_found.len(),
                        results.deep_view() == merged_before + entries_found.deep_view().take(
                            j as int,
                        ),
                    decreases m - j,
                {
                    let ghost before = results.deep_view();
                    results.push(entries_found[j].duplicate());
                    proof {
                        assert(results.deep_view() =~= before.push(
                            entries_found.deep_view()[j as int],
                        ));
                        assert(results.deep_view() =~= merged_before
                            + entries_found.deep_view().take(j as int + 1));
                    }
                    j = j + 1;
                }
                assert(entries_found.deep_view().take(m as int) =~= entries_found.deep_view());
                assert(spec_found_any(
                    fs@,
                    runners.deep_view().take(i as int + 1),
                    args.deep_view(),
                )) by {
                    assert(runners.deep_view().take(i as int + 1)[i as int]
                        == runners.deep_view()[i as int]);
                    assert(spec_resolve_prefix(
                        fs@,
                        runners.deep_view().take(i as int + 1)[i as int].path,
                        args.deep_view(),
                    ) matches Some(_));
                }
            },
            None => {
                assert(spec_found_any(fs@, runners.deep_view().take(i as int + 1), args.deep_view())
                    == spec_found_any(fs@, runners.deep_view().take(i as int), args.deep_view()))
                    by {
                    assert(forall|k: int|
                        0 <= k < i as int + 1 ==> runners.deep_view().take(i as int + 1)[k]
                            == runners.deep_view()[k]);
                    assert(forall|k: int|
                        0 <= k < i as int ==> runners.deep_view().take(i as int)[k]
                            == runners.deep_view()[k]);
                }
                assert(results.deep_view() =~= merged_before + Seq::<EntryModel>::empty());
            },
        }
        i = i + 1;
    }
    assert(runners.deep_view().take(n as int) =~= runners.deep_view());
    if found {
        Some(sort_entries(&results))
    } else {
        None
    }
}

/// Lists every option available at the root of every runner, merged and
/// sorted by name.
pub fn get_root_options(fs: &FileSystem, runners: &Vec<Runner>) -> (r: Vec<FileSystemEntry>)
    ensures
        r.deep_view() == spec_sort_entries(
            spec_merged_options(fs@, runners.deep_view(), Seq::empty()),
        ),
{
    let mut results: Vec<FileSystemEntry> = Vec::new();
    let n = runners.len();
    let mut i: usize = 0;
    assert(runners.deep_view().take(0) =~= Seq::<RunnerModel>::empty());
    assert(results.deep_view() =~= Seq::<EntryModel>::empty());
    while i < n
        invariant
            0 <= i <= n,
            n == runners.len(),
            results.deep_view() == spec_merged_options(
                fs@,
                runners.deep_view().take(i as int),
                Seq::<Seq<char>>::empty(),
            ),
        decreases n - i,
    {
        proof {
            assert(runners.deep_view().take(i as int + 1).drop_last() =~= runners.deep_view().take(
                i as int,
            ));
            assert(runners.deep_view().take(i as int + 1).last() == runners.deep_view()[i as int]);
        }
        let ghost merged_before = results.deep_view();
        let listing = fs.get_directory_entries(&runners[i].path);
        let m = listing.len();
        let mut j: usize = 0;
        assert(results.deep_view() =~= merged_before + listing.deep_view().take(0));
        while j < m
            invariant
                0 <= j <= m,
                m == listing.len(),
                results.deep_view() == merged_before + listing.deep_view().take(j as int),
            decreases m - j,
        {
            let ghost before = results.deep_view();
            results.push(listing[j].duplicate());
            proof {
                assert(results.deep_view() =~= before.push(listing.deep_view()[j as int]));
                assert(results.deep_view() =~= merged_before + listing.deep_view().take(
                    j as int + 1,
                ));
            }
            j = j + 1;
        }
        assert(listing.deep_view().take(m as int) =~= listing.deep_view());
        i = i + 1;
    }
    assert(runners.deep_view().take(n as int) =~= runners.deep_view());
    sort_entries(&results)
}

/// Builds the process invocation for a resolved command, by the owning
/// runner's strategy. The environment snapshot supplies interpreter and
/// launcher paths; `alias_text` is the single line read from the command
/// file when the strategy is `CommandAlias`.
pub fn run_command(
    runner_command: RunnerCommand,
    env: &Environment,
    alias_text: Option<&str>,
) -> (r: Result<Invocation, DispatchError>)
    requires
        runner_command.runner.strategy matches Strategy::CommandAlias ==> alias_text is Some,
    ensures
        ({
            let m = dispatch_result_model(r);
            match runner_command.runner.strategy {
                Strategy::DirectExecutable => m == Ok::<InvocationModel, DispatchErrorModel>(
                    InvocationModel {
                        program: runner_command.command_path@,
                        argv: runner_command.args.deep_view(),
                    },
                ),
                Strategy::InterpretedScript { env_var } => match spec_env_lookup(env@, env_var@) {
                    Some(v) => m == Ok::<InvocationModel, DispatchErrorModel>(
                        InvocationModel {
                            program: v,
                            argv: seq![runner_command.command_path@]
                                + runner_command.args.deep_view(),
                        },
                    ),
                    None => m == Err::<InvocationModel, DispatchErrorModel>(
                        DispatchErrorModel::MissingEnvironmentVariable { name: env_var@ },
                    ),
                },
                Strategy::CommandAlias => alias_text matches Some(t) && m == spec_alias_invocation(
                    t@,
                    runner_command.args.deep_view(),
                ),
                Strategy::ArchiveRuntime { env_var, launch_flag } => match spec_env_lookup(
                    env@,
                    env_var@,
                ) {
                    Some(v) => m == Ok::<InvocationModel, DispatchErrorModel>(
                        InvocationModel {
                            program: v,
                            argv: seq![launch_flag@, runner_command.command_path@]
                                + runner_command.args.deep_view(),
                        },
                    ),
                    None => m == Err::<InvocationModel, DispatchErrorModel>(
                        DispatchErrorModel::MissingEnvironmentVariable { name: env_var@ },
                    ),
                },
            }
        }),
{
    let RunnerCommand { command_path, args, runner } = runner_command;
    match runner.strategy {
        Strategy::DirectExecutable => Ok(Invocation { program: command_path, argv: args }),
        Strategy::InterpretedScript { env_var } => {
            match env.get_environment_variable(&env_var) {
                None => Err(DispatchError::MissingEnvironmentVariable { name: env_var }),
                Some(value) => {
                    let mut argv: Vec<String> = Vec::new();
                    argv.push(command_path);
                    let argv = push_all(argv, &args);
                    assert(argv.deep_view() =~= seq![runner_command.command_path@]
                        + runner_command.args.deep_view());
                    Ok(Invocation { program: value, argv })
                },
            }
        },
        Strategy::CommandAlias => {
            match alias_text {
                Some(text) => build_alias_invocation(text, &args),
                None => unreached(),
            }
        },
        Strategy::ArchiveRuntime { env_var, launch_flag } => {
            match env.get_environment_variable(&env_var) {
                None => Err(DispatchError::MissingEnvironmentVariable { name: env_var }),
                Some(value) => {
                    let mut argv: Vec<String> = Vec::new();
                    argv.push(launch_flag);
                    argv.push(command_path);
                    let argv = push_all(argv, &args);
                    assert(argv.deep_view() =~= seq![
                        runner_command.runner.strategy->ArchiveRuntime_launch_flag@,
                        runner_command.command_path@,
                    ] + runner_command.args.deep_view());
                    Ok(Invocation { program: value, argv })
                },
            }
        },
    }
}

/// Law: under a single runner, enumerating a prefix that resolves to path
/// `p` yields exactly the entries physically present at `p`: the listing
/// is a permutation of the children of `p`, ordered by name.
pub proof fn lemma_enumerate_single_runner(
    entries: Seq<EntryModel>,
    runners: Seq<RunnerModel>,
    prefix: Seq<Seq<char>>,
    p: Seq<char>,
)
    requires
        runners.len() == 1,
        spec_resolve_prefix(entries, runners[0].path, prefix) == Some(p),
    ensures
        spec_enumerate(entries, runners, prefix) == Some(
            spec_sort_entries(spec_children(entries, p)),
        ),
        entries_sorted(spec_sort_entries(spec_children(entries, p))),
        spec_sort_entries(spec_children(entries, p)).to_multiset() == spec_children(
            entries,
            p,
        ).to_multiset(),
{
    assert(spec_found_any(entries, runners, prefix)) by {
        assert((#[trigger] spec_resolve_prefix(entries, runners[0].path, prefix)) matches Some(_));
    }
    assert(runners.drop_last().len() == 0);
    assert(runners.last() == runners[0]);
    assert(spec_merged_options(entries, runners.drop_last(), prefix) == Seq::<EntryModel>::empty());
    assert(spec_merged_options(entries, runners, prefix) =~= spec_children(entries, p));
    crate::order::lemma_sort_entries_sorted(spec_children(entries, p));
    crate::order::lemma_sort_entries_multiset(spec_children(entries, p));
}

/// Law: enumeration is a function of the snapshot, the registry and the
/// prefix alone, so two results obtained for equal inputs are the same
/// listing; repeated calls with no mutation in between are order-stable.
pub proof fn lemma_enumerate_idempotent(
    r1: Option<Seq<EntryModel>>,
    r2: Option<Seq<EntryModel>>,
    entries: Seq<EntryModel>,
    runners: Seq<RunnerModel>,
    prefix: Seq<Seq<char>>,
)
    requires
        r1 == spec_enumerate(entries, runners, prefix),
        r2 == spec_enumerate(entries, runners, prefix),
    ensures
        r1 == r2,
{
}

/// Law: enumeration yields a listing exactly when some runner resolves the
/// prefix. A resolved but empty directory yields an empty listing, not
/// absence, so "invalid path" and "empty directory" stay distinguishable.
pub proof fn lemma_enumerate_distinguishes(
    entries: Seq<EntryModel>,
    runners: Seq<RunnerModel>,
    prefix: Seq<Seq<char>>,
)
    ensures
        spec_enumerate(entries, runners, prefix) matches Some(_) <==> spec_found_any(
            entries,
            runners,
            prefix,
        ),
{
}

/// Appends clones of all of `extra` to `argv`.
fn push_all(argv: Vec<String>, extra: &Vec<String>) -> (r: Vec<String>)
    ensures
        r.deep_view() == argv.deep_view() + extra.deep_view(),
{
    let ghost base = argv.deep_view();
    let mut out = argv;
    let n = extra.len();
    let mut i: usize = 0;
    assert(out.deep_view() =~= base + extra.deep_view().take(0));
    while i < n
        invariant
            0 <= i <= n,
            n == extra.len(),
            out.deep_view() == base + extra.deep_view().take(i as int),
        decreases n - i,
    {
        let ghost before = out.deep_view();
        out.push(extra[i].clone());
        proof {
            assert(out.deep_view() =~= before.push(extra.deep_view()[i as int]));
            assert(out.deep_view() =~= base + extra.deep_view().take(i as int + 1));
        }
        i = i + 1;
    }
    assert(extra.deep_view().take(n as int) =~= extra.deep_view());
    out
}

} // verus!
