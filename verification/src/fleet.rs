//! The fleet commands: what they print and how they exit.
use vstd::prelude::*;

use crate::text::texts;

verus! {

/// What a command prints, and its exit code.
#[derive(Debug)]
pub struct FleetOutput {
    pub stdout: String,
    pub stderr: String,
    pub code: i32,
}

/// What a command prints, as text.
pub struct OutputView {
    pub stdout: Seq<char>,
    pub stderr: Seq<char>,
    pub code: i32,
}

impl View for FleetOutput {
    type V = OutputView;

    open spec fn view(&self) -> OutputView {
        OutputView { stdout: self.stdout@, stderr: self.stderr@, code: self.code }
    }
}

/// The help on the fleet commands.
pub const FLEET_HELP: &'static str = "usage: herdr fleet <command> [options]\n\n\
    Federation fleet commands:\n\n  \
    status     Show federation status (origins, reachability, latency)\n  \
    doctor     Run federation health diagnostics\n  \
    help       Show this help message\n\n\
    Use 'herdr fleet <command> --help' for more information.\n";

/// The help on `fleet status`.
pub const STATUS_HELP: &'static str = "usage: herdr fleet status [--json]\n\n\
    Show federation fleet status: which origins are reachable, latency, errors.\n\n\
    Options:\n  \
    --json    Output as JSON instead of human-readable text\n";

/// The help on `fleet doctor`.
pub const DOCTOR_HELP: &'static str = "usage: herdr fleet doctor\n\n\
    Run federation health diagnostics: check connectivity, versioning,\n\
    and configuration for all federated origins.\n";

/// What `fleet status --json` prints.
pub const STATUS_JSON: &'static str = "{\"status\":\"unavailable\",\"message\":\"federation status endpoint not yet implemented\"}\n";

/// What `fleet status` prints.
pub const STATUS_TEXT: &'static str = "Federation fleet status is not yet available.\n\
    To see federation status, enable experimental.federation in your config.\n";

/// What `fleet doctor` prints.
pub const DOCTOR_TEXT: &'static str = "Federation diagnostics are not yet available.\n\
    To see fleet diagnostics, enable experimental.federation in your config.\n";

/// A command that prints on standard output.
pub open spec fn printed(stdout: Seq<char>, code: i32) -> OutputView {
    OutputView { stdout, stderr: Seq::empty(), code }
}

/// A command that prints on standard error.
pub open spec fn reported(stderr: Seq<char>, code: i32) -> OutputView {
    OutputView { stdout: Seq::empty(), stderr, code }
}

/// Whether the arguments ask for help.
pub open spec fn asks_for_help(args: Seq<Seq<char>>) -> bool {
    args.contains("--help"@) || args.contains("-h"@)
}

/// What `fleet status` does with its arguments.
pub open spec fn status_output(args: Seq<Seq<char>>) -> OutputView {
    if asks_for_help(args) {
        printed(STATUS_HELP@, 0)
    } else if args.contains("--json"@) {
        printed(STATUS_JSON@, 0)
    } else {
        reported(STATUS_TEXT@, 0)
    }
}

/// What `fleet doctor` does with its arguments.
pub open spec fn doctor_output(args: Seq<Seq<char>>) -> OutputView {
    if asks_for_help(args) {
        printed(DOCTOR_HELP@, 0)
    } else {
        reported(DOCTOR_TEXT@, 0)
    }
}

/// What `fleet` does with its arguments.
pub open spec fn fleet_output(args: Seq<Seq<char>>) -> OutputView {
    if args.len() == 0 {
        printed(FLEET_HELP@, 2)
    } else if args[0] == "status"@ {
        status_output(args.drop_first())
    } else if args[0] == "doctor"@ {
        doctor_output(args.drop_first())
    } else if args[0] == "help"@ || args[0] == "--help"@ || args[0] == "-h"@ {
        printed(FLEET_HELP@, 0)
    } else {
        printed(FLEET_HELP@, 2)
    }
}

/// Whether an argument from a place on is a given text.
fn holds_from(args: &Vec<String>, start: usize, wanted: &str) -> (r: bool)
    requires
        start <= args@.len(),
    ensures
        r == texts(args@).skip(start as int).contains(wanted@),
{
    let text = wanted.to_owned();
    let ghost rest = texts(args@).skip(start as int);
    let mut i: usize = start;
    while i < args.len()
        invariant
            start <= i <= args@.len(),
            text@ == wanted@,
            rest == texts(args@).skip(start as int),
            forall|k: int| 0 <= k < i - start ==> rest[k] != wanted@,
        decreases args@.len() - i,
    {
        assert(rest[i - start] == args@[i as int]@);
        if args[i] == text {
            return true;
        }
        i = i + 1;
    }
    false
}

/// The exit of a command that printed its help.
fn print_out(stdout: &str, code: i32) -> (r: FleetOutput)
    ensures
        r@ == printed(stdout@, code),
{
    let r = FleetOutput { stdout: stdout.to_owned(), stderr: String::new(), code };
    assert(r@.stderr == Seq::<char>::empty());
    r
}

/// The exit of a command that has something to report.
fn print_err(stderr: &str, code: i32) -> (r: FleetOutput)
    ensures
        r@ == reported(stderr@, code),
{
    let r = FleetOutput { stdout: String::new(), stderr: stderr.to_owned(), code };
    assert(r@.stdout == Seq::<char>::empty());
    r
}

/// Runs a fleet command. `args` are the arguments behind `fleet`.
pub fn run_fleet_command(args: &Vec<String>) -> (r: FleetOutput)
    ensures
        r@ == fleet_output(texts(args@)),
{
    if args.len() == 0 {
        return print_fleet_help(2);
    }
    let ghost all = texts(args@);
    assert(all[0] == args@[0]@);
    assert(all.drop_first() == all.skip(1));
    let command = &args[0];
    if *command == "status".to_owned() {
        run_fleet_status(args, 1)
    } else if *command == "doctor".to_owned() {
        run_fleet_doctor(args, 1)
    } else if *command == "help".to_owned() || *command == "--help".to_owned() || *command
        == "-h".to_owned() {
        print_fleet_help(0)
    } else {
        print_fleet_help(2)
    }
}

/// Runs `fleet status`. Its own arguments are those from `start` on.
pub fn run_fleet_status(args: &Vec<String>, start: usize) -> (r: FleetOutput)
    requires
        start <= args@.len(),
    ensures
        r@ == status_output(texts(args@).skip(start as int)),
{
    if holds_from(args, start, "--help") || holds_from(args, start, "-h") {
        print_out(STATUS_HELP, 0)
    } else if holds_from(args, start, "--json") {
        print_out(STATUS_JSON, 0)
    } else {
        print_err(STATUS_TEXT, 0)
    }
}

/// Runs `fleet doctor`. Its own arguments are those from `start` on.
pub fn run_fleet_doctor(args: &Vec<String>, start: usize) -> (r: FleetOutput)
    requires
        start <= args@.len(),
    ensures
        r@ == doctor_output(texts(args@).skip(start as int)),
{
    if holds_from(args, start, "--help") || holds_from(args, start, "-h") {
        print_out(DOCTOR_HELP, 0)
    } else {
        print_err(DOCTOR_TEXT, 0)
    }
}

/// Prints the help on the fleet commands.
pub fn print_fleet_help(code: i32) -> (r: FleetOutput)
    ensures
        r@ == printed(FLEET_HELP@, code),
{
    print_out(FLEET_HELP, code)
}

/// A command that is not known is answered with the help and the exit code of a
/// usage error; a command that is known always succeeds.
pub proof fn law_only_unknown_commands_fail(args: Seq<Seq<char>>)
    ensures
        fleet_output(args).code == 0 || fleet_output(args) == printed(FLEET_HELP@, 2),
        fleet_output(args).code == 0 <==> args.len() > 0 && (args[0] == "status"@ || args[0]
            == "doctor"@ || args[0] == "help"@ || args[0] == "--help"@ || args[0] == "-h"@),
{
}

/// What each command prints, and where: help and JSON on standard output, what is
/// not available yet on standard error, and never on both. Asking for help goes
/// before everything else.
pub proof fn law_what_each_command_prints(args: Seq<Seq<char>>)
    ensures
        ({
            let out = fleet_output(args);
            let rest = args.drop_first();
            let help = rest.contains("--help"@) || rest.contains("-h"@);
            &&& out.stdout.len() == 0 || out.stderr.len() == 0
            &&& args.len() == 0 ==> out.stdout == FLEET_HELP@
            &&& args.len() > 0 && args[0] == "status"@ ==> {
                &&& help ==> out.stdout == STATUS_HELP@ && out.stderr.len() == 0
                &&& !help && rest.contains("--json"@) ==> out.stdout == STATUS_JSON@
                    && out.stderr.len() == 0
                &&& !help && !rest.contains("--json"@) ==> out.stderr == STATUS_TEXT@
                    && out.stdout.len() == 0
            }
            &&& args.len() > 0 && args[0] == "doctor"@ ==> {
                &&& help ==> out.stdout == DOCTOR_HELP@ && out.stderr.len() == 0
                &&& !help ==> out.stderr == DOCTOR_TEXT@ && out.stdout.len() == 0
            }
            &&& args.len() > 0 && args[0] != "status"@ && args[0] != "doctor"@ ==> out.stdout
                == FLEET_HELP@ && out.stderr.len() == 0
        }),
{
    reveal_strlit("status");
    reveal_strlit("doctor");
    assert("status"@[0] != "doctor"@[0]);
}

/// What a command prints is seen as what is held, field by field.
pub proof fn law_what_is_seen_is_held(output: FleetOutput)
    ensures
        output@.stdout == output.stdout@,
        output@.stderr == output.stderr@,
        output@.code == output.code,
{
}

} // verus!
