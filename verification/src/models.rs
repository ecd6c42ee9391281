//! Data types of the dispatcher and their ghost models.
//!
//! Each executable type holds plain values (`String`, `Vec<String>`, `bool`)
//! and is paired with a ghost model over `Seq<char>` through `View` /
//! `DeepView`, so that contracts can speak about string contents directly.

use vstd::prelude::*;

verus! {

/// How commands found under a runner's root directory are launched.
pub enum Strategy {
    /// The command file is spawned directly, arguments passed through.
    DirectExecutable,
    /// The command file is handed to an interpreter whose path is read from
    /// the environment variable named here.
    InterpretedScript { env_var: String },
    /// The command file is a single-line alias whose text, after `%s` token
    /// substitution, is itself parsed as a command line.
    CommandAlias,
    /// The command file is handed to a launcher (read from the environment
    /// variable named here) behind a fixed launch flag.
    ArchiveRuntime { env_var: String, launch_flag: String },
}

/// Ghost model of a `Strategy`.
#[verifier::ext_equal]
pub ghost enum StrategyModel {
    DirectExecutable,
    InterpretedScript { env_var: Seq<char> },
    CommandAlias,
    ArchiveRuntime { env_var: Seq<char>, launch_flag: Seq<char> },
}

impl View for Strategy {
    type V = StrategyModel;

    open spec fn view(&self) -> StrategyModel {
        match self {
            Strategy::DirectExecutable => StrategyModel::DirectExecutable,
            Strategy::InterpretedScript { env_var } => StrategyModel::InterpretedScript {
                env_var: env_var@,
            },
            Strategy::CommandAlias => StrategyModel::CommandAlias,
            Strategy::ArchiveRuntime { env_var, launch_flag } => StrategyModel::ArchiveRuntime {
                env_var: env_var@,
                launch_flag: launch_flag@,
            },
        }
    }
}

impl DeepView for Strategy {
    type V = StrategyModel;

    open spec fn deep_view(&self) -> StrategyModel {
        self@
    }
}

impl Strategy {
    /// Field-for-field copy, specified through the ghost model.
    pub fn duplicate(&self) -> (r: Strategy)
        ensures
            r@ == self@,
    {
        match self {
            Strategy::DirectExecutable => Strategy::DirectExecutable,
            Strategy::InterpretedScript { env_var } => Strategy::InterpretedScript {
                env_var: env_var.clone(),
            },
            Strategy::CommandAlias => Strategy::CommandAlias,
            Strategy::ArchiveRuntime { env_var, launch_flag } => Strategy::ArchiveRuntime {
                env_var: env_var.clone(),
                launch_flag: launch_flag.clone(),
            },
        }
    }
}

/// One filesystem object: a point-in-time snapshot of one directory child.
/// `path` is the full path of the object; `name` is its final segment.
pub struct FileSystemEntry {
    pub name: String,
    pub path: String,
    pub is_directory: bool,
}

/// Ghost model of a `FileSystemEntry`.
#[verifier::ext_equal]
pub ghost struct EntryModel {
    pub name: Seq<char>,
    pub path: Seq<char>,
    pub is_directory: bool,
}

impl View for FileSystemEntry {
    type V = EntryModel;

    open spec fn view(&self) -> EntryModel {
        EntryModel { name: self.name@, path: self.path@, is_directory: self.is_directory }
    }
}

impl DeepView for FileSystemEntry {
    type V = EntryModel;

    open spec fn deep_view(&self) -> EntryModel {
        self@
    }
}

impl FileSystemEntry {
    /// Field-for-field copy, specified through the ghost model.
    pub fn duplicate(&self) -> (r: FileSystemEntry)
        ensures
            r@ == self@,
    {
        FileSystemEntry {
            name: self.name.clone(),
            path: self.path.clone(),
            is_directory: self.is_directory,
        }
    }
}

/// A named root directory paired with the execution strategy for the
/// commands found beneath it.
pub struct Runner {
    pub name: String,
    pub path: String,
    pub strategy: Strategy,
}

/// Ghost model of a `Runner`.
#[verifier::ext_equal]
pub ghost struct RunnerModel {
    pub name: Seq<char>,
    pub path: Seq<char>,
    pub strategy: StrategyModel,
}

impl View for Runner {
    type V = RunnerModel;

    open spec fn view(&self) -> RunnerModel {
        RunnerModel { name: self.name@, path: self.path@, strategy: self.strategy@ }
    }
}

impl DeepView for Runner {
    type V = RunnerModel;

    open spec fn deep_view(&self) -> RunnerModel {
        self@
    }
}

impl Runner {
    /// Field-for-field copy, specified through the ghost model.
    pub fn duplicate(&self) -> (r: Runner)
        ensures
            r@ == self@,
    {
        Runner {
            name: self.name.clone(),
            path: self.path.clone(),
            strategy: self.strategy.duplicate(),
        }
    }
}

/// The outcome of walking a single runner's tree: the resolved command file
/// and the arguments left over after the walk.
pub struct CommandDetails {
    pub command_path: String,
    pub args: Vec<String>,
}

/// Ghost model of a `CommandDetails`.
#[verifier::ext_equal]
pub ghost struct CommandDetailsModel {
    pub command_path: Seq<char>,
    pub args: Seq<Seq<char>>,
}

impl View for CommandDetails {
    type V = CommandDetailsModel;

    open spec fn view(&self) -> CommandDetailsModel {
        CommandDetailsModel { command_path: self.command_path@, args: self.args.deep_view() }
    }
}

impl DeepView for CommandDetails {
    type V = CommandDetailsModel;

    open spec fn deep_view(&self) -> CommandDetailsModel {
        self@
    }
}

/// A resolved command together with the runner whose tree produced it.
pub struct RunnerCommand {
    pub command_path: String,
    pub args: Vec<String>,
    pub runner: Runner,
}

/// Ghost model of a `RunnerCommand`.
#[verifier::ext_equal]
pub ghost struct RunnerCommandModel {
    pub command_path: Seq<char>,
    pub args: Seq<Seq<char>>,
    pub runner: RunnerModel,
}

impl View for RunnerCommand {
    type V = RunnerCommandModel;

    open spec fn view(&self) -> RunnerCommandModel {
        RunnerCommandModel {
            command_path: self.command_path@,
            args: self.args.deep_view(),
            runner: self.runner@,
        }
    }
}

impl DeepView for RunnerCommand {
    type V = RunnerCommandModel;

    open spec fn deep_view(&self) -> RunnerCommandModel {
        self@
    }
}

/// The outcome of trying to resolve an argument list across all runners.
pub enum Resolution {
    /// Exactly one runner's walk produced a command.
    Resolved(RunnerCommand),
    /// Two or more runners resolved the same argument list: fatal.
    Ambiguous,
    /// No runner resolved the argument list: the caller falls back to
    /// enumerating options.
    NotFound,
}

/// A fully built process invocation: the program to spawn and its argv.
pub struct Invocation {
    pub program: String,
    pub argv: Vec<String>,
}

/// Ghost model of an `Invocation`.
#[verifier::ext_equal]
pub ghost struct InvocationModel {
    pub program: Seq<char>,
    pub argv: Seq<Seq<char>>,
}

impl View for Invocation {
    type V = InvocationModel;

    open spec fn view(&self) -> InvocationModel {
        InvocationModel { program: self.program@, argv: self.argv.deep_view() }
    }
}

impl DeepView for Invocation {
    type V = InvocationModel;

    open spec fn deep_view(&self) -> InvocationModel {
        self@
    }
}

/// A fatal misconfiguration found while building an invocation.
#[derive(Debug)]
pub enum DispatchError {
    /// The environment variable named here is required but unset.
    MissingEnvironmentVariable { name: String },
    /// An alias file contained more than one line.
    MultiLineAlias,
    /// An alias line (carried here) holds more `%s` tokens than arguments.
    MissingAliasArgument { alias_text: String },
}

/// Ghost model of a `DispatchError`.
#[verifier::ext_equal]
pub ghost enum DispatchErrorModel {
    MissingEnvironmentVariable { name: Seq<char> },
    MultiLineAlias,
    MissingAliasArgument { alias_text: Seq<char> },
}

impl View for DispatchError {
    type V = DispatchErrorModel;

    open spec fn view(&self) -> DispatchErrorModel {
        match self {
            DispatchError::MissingEnvironmentVariable { name } => {
                DispatchErrorModel::MissingEnvironmentVariable { name: name@ }
            },
            DispatchError::MultiLineAlias => DispatchErrorModel::MultiLineAlias,
            DispatchError::MissingAliasArgument { alias_text } => {
                DispatchErrorModel::MissingAliasArgument { alias_text: alias_text@ }
            },
        }
    }
}

impl DeepView for DispatchError {
    type V = DispatchErrorModel;

    open spec fn deep_view(&self) -> DispatchErrorModel {
        self@
    }
}

} // verus!
