//! Commands that the editor can run: what each asks for, and how its outcome
//! is reported.

use crate::schema::{find_entry, lookup, Json};
use crate::text::{concat2, concat3, decimal, opt_view, str_eq, texts, u64_text};
use vstd::prelude::*;

verus! {

pub const CMD_INIT_WORKSPACE: &'static str = "terraform-ls-rs.initWorkspace";

pub const CMD_FETCH_SCHEMAS: &'static str = "terraform-ls-rs.fetchSchemas";

pub const CMD_VALIDATE: &'static str = "terraform-ls-rs.validate";

/// All commands, in the order in which they are announced.
pub const COMMANDS: [&'static str; 3] = [CMD_INIT_WORKSPACE, CMD_FETCH_SCHEMAS, CMD_VALIDATE];

/// [`COMMANDS`] as a list.
pub fn command_names() -> (r: Vec<&'static str>)
    ensures
        r@ == seq![CMD_INIT_WORKSPACE, CMD_FETCH_SCHEMAS, CMD_VALIDATE],
        r@ == COMMANDS@,
{
    let names = vec![CMD_INIT_WORKSPACE, CMD_FETCH_SCHEMAS, CMD_VALIDATE];
    assert(names@ =~= seq![CMD_INIT_WORKSPACE, CMD_FETCH_SCHEMAS, CMD_VALIDATE]);
    names
}

/// What a command asks for.
#[derive(Debug)]
pub enum CommandPlan {
    /// Run the CLI in a directory.
    RunCli { dir: String, args: Vec<String> },
    /// Fetch the provider schemas of a directory at once.
    FetchSchemas { dir: String },
    /// The request is refused.
    InvalidParams(String),
}

pub enum PlanV {
    RunCli { dir: Seq<char>, args: Seq<Seq<char>> },
    FetchSchemas { dir: Seq<char> },
    InvalidParams(Seq<char>),
}

impl View for CommandPlan {
    type V = PlanV;

    open spec fn view(&self) -> PlanV {
        match self {
            CommandPlan::RunCli { dir, args } => PlanV::RunCli { dir: dir@, args: texts(args@) },
            CommandPlan::FetchSchemas { dir } => PlanV::FetchSchemas { dir: dir@ },
            CommandPlan::InvalidParams(m) => PlanV::InvalidParams(m@),
        }
    }
}

/// The directory that a command is for: the first argument, or its
/// `workingDirectory`.
pub open spec fn dir_argument(args: Seq<Json>) -> Option<Seq<char>> {
    if args.len() == 0 {
        None
    } else {
        match args[0] {
            Json::Str(s) => Some(s@),
            Json::Object(fields) => match lookup(fields@, "workingDirectory"@) {
                Some(Json::Str(s)) => Some(s@),
                _ => None,
            },
            _ => None,
        }
    }
}

pub fn first_dir_argument(args: &Vec<Json>) -> (r: Option<String>)
    ensures
        opt_view(r) == dir_argument(args@),
{
    if args.len() == 0 {
        return None;
    }
    match &args[0] {
        Json::Str(s) => Some(s.clone()),
        Json::Object(fields) => match find_entry(fields, "workingDirectory") {
            Some(Json::Str(s)) => Some(s.clone()),
            _ => None,
        },
        _ => None,
    }
}

/// The request with its directory, or the complaint that it is missing.
pub open spec fn with_dir(dir: Option<Seq<char>>, args: Seq<Seq<char>>) -> PlanV {
    match dir {
        Some(dir) => PlanV::RunCli { dir, args },
        None => PlanV::InvalidParams("missing argument: working directory"@),
    }
}

/// What a command asks for.
pub open spec fn command_plan(command: Seq<char>, args: Seq<Json>) -> PlanV {
    let dir = dir_argument(args);
    if command == "terraform-ls-rs.initWorkspace"@ {
        with_dir(dir, seq!["init"@, "-backend=false"@])
    } else if command == "terraform-ls-rs.fetchSchemas"@ {
        match dir {
            Some(dir) => PlanV::FetchSchemas { dir },
            None => PlanV::InvalidParams("missing argument: working directory"@),
        }
    } else if command == "terraform-ls-rs.validate"@ {
        with_dir(dir, seq!["validate"@])
    } else {
        PlanV::InvalidParams("unknown command: "@ + command)
    }
}

fn missing_dir() -> (r: CommandPlan)
    ensures
        r@ == PlanV::InvalidParams("missing argument: working directory"@),
{
    CommandPlan::InvalidParams("missing argument: working directory".to_owned())
}

/// What a command asks for.
pub fn execute_command(command: &str, arguments: &Vec<Json>) -> (r: CommandPlan)
    ensures
        r@ == command_plan(command@, arguments@),
{
    let dir = first_dir_argument(arguments);
    if str_eq(command, "terraform-ls-rs.initWorkspace") {
        match dir {
            Some(dir) => {
                let args = vec!["init".to_owned(), "-backend=false".to_owned()];
                assert(texts(args@) =~= seq!["init"@, "-backend=false"@]);
                CommandPlan::RunCli { dir, args }
            },
            None => missing_dir(),
        }
    } else if str_eq(command, "terraform-ls-rs.fetchSchemas") {
        match dir {
            Some(dir) => CommandPlan::FetchSchemas { dir },
            None => missing_dir(),
        }
    } else if str_eq(command, "terraform-ls-rs.validate") {
        match dir {
            Some(dir) => {
                let args = vec!["validate".to_owned()];
                assert(texts(args@) =~= seq!["validate"@]);
                CommandPlan::RunCli { dir, args }
            },
            None => missing_dir(),
        }
    } else {
        CommandPlan::InvalidParams(concat2("unknown command: ", command))
    }
}

// ---------------------------------------------------------------------
// Running the CLI

/// How long the CLI may run: as configured, but a second at least.
pub fn cli_timeout(configured: u64) -> (r: u64)
    ensures
        r == if configured < 1 {
            1
        } else {
            configured
        },
{
    if configured < 1 {
        1
    } else {
        configured
    }
}

/// How a run ended.
#[derive(Debug)]
pub enum CliOutcome {
    NotSpawned(String),
    Failed(String),
    TimedOut,
    Done { code: Option<i32>, stdout: String, stderr: String },
}

/// What the client is told of a run.
#[derive(Debug)]
pub enum CliReport {
    /// The CLI is switched off.
    Skipped,
    Finished { status: i32, stdout: String, stderr: String },
    InternalError(String),
}

pub enum ReportV {
    Skipped,
    Finished { status: i32, stdout: Seq<char>, stderr: Seq<char> },
    InternalError(Seq<char>),
}

impl View for CliReport {
    type V = ReportV;

    open spec fn view(&self) -> ReportV {
        match self {
            CliReport::Skipped => ReportV::Skipped,
            CliReport::Finished { status, stdout, stderr } => ReportV::Finished {
                status: *status,
                stdout: stdout@,
                stderr: stderr@,
            },
            CliReport::InternalError(m) => ReportV::InternalError(m@),
        }
    }
}

/// What is reported of a run; `None` stands for one that was not tried.
pub open spec fn report_of(binary: Seq<char>, timeout: u64, outcome: Option<CliOutcome>) -> ReportV {
    match outcome {
        None => ReportV::Skipped,
        Some(CliOutcome::NotSpawned(e)) => ReportV::InternalError(
            "failed to spawn "@ + binary + ": "@ + e@,
        ),
        Some(CliOutcome::Failed(e)) => ReportV::InternalError(
            binary + " failed to run: "@ + e@,
        ),
        Some(CliOutcome::TimedOut) => ReportV::InternalError(
            binary + " timed out after "@ + decimal(timeout as nat) + "s"@,
        ),
        Some(CliOutcome::Done { code, stdout, stderr }) => ReportV::Finished {
            status: match code {
                Some(c) => c,
                None => (-1i32) as i32,
            },
            stdout: stdout@,
            stderr: stderr@,
        },
    }
}

/// What is reported of a run.
pub fn cli_report(binary: &str, timeout: u64, outcome: Option<CliOutcome>) -> (r: CliReport)
    ensures
        r@ == report_of(binary@, timeout, outcome),
{
    match outcome {
        None => CliReport::Skipped,
        Some(CliOutcome::NotSpawned(e)) => {
            let mut m = concat3("failed to spawn ", binary, ": ");
            m.append(e.as_str());
            CliReport::InternalError(m)
        },
        Some(CliOutcome::Failed(e)) => CliReport::InternalError(
            concat3(binary, " failed to run: ", e.as_str()),
        ),
        Some(CliOutcome::TimedOut) => {
            let mut m = concat3(binary, " timed out after ", u64_text(timeout).as_str());
            m.append("s");
            CliReport::InternalError(m)
        },
        Some(CliOutcome::Done { code, stdout, stderr }) => CliReport::Finished {
            status: match code {
                Some(c) => c,
                None => -1,
            },
            stdout,
            stderr,
        },
    }
}

} // verus!
