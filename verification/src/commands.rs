//! Command-line arguments of the terminal UI.

use vstd::prelude::*;

use crate::text::{concat_strs, concat_views, is_prefix, str_eq, str_starts_with, trim, trimmed};

verus! {

/// What the command line asks for.
#[derive(Debug, PartialEq, Eq)]
pub enum CliAction {
    RunApp,
    PrintHelp(String),
    SetStartupCommand(String),
    ClearStartupCommand,
}

/// The mathematical content of a `CliAction`.
pub enum CliActionView {
    RunApp,
    PrintHelp(Seq<char>),
    SetStartupCommand(Seq<char>),
    ClearStartupCommand,
}

impl View for CliAction {
    type V = CliActionView;

    open spec fn view(&self) -> CliActionView {
        match self {
            CliAction::RunApp => CliActionView::RunApp,
            CliAction::PrintHelp(h) => CliActionView::PrintHelp(h@),
            CliAction::SetStartupCommand(c) => CliActionView::SetStartupCommand(c@),
            CliAction::ClearStartupCommand => CliActionView::ClearStartupCommand,
        }
    }
}

/// Whether the program goes on to the terminal UI after the arguments are
/// handled.
pub enum CommandResult {
    ContinueToApp,
    Exit,
}

/// The help text, for the program name `bin`.
pub open spec fn help_text(bin: Seq<char>) -> Seq<char> {
    "Beehive TUI\n\nUsage:\n  "@ + bin + "\n  "@ + bin + " --startup-cmd \"<command>\"\n  "@ + bin
        + " --startup-cmd ''\n  "@ + bin + " --help\n\nOptions:\n  --startup-cmd <command>  Save the comb startup command in ~/.beehive/config.json\n                           Runs once per comb when that comb first opens after launch\n                           Pass an empty string to clear it\n  -h, --help               Show this help text\n"@
}

/// The help text of the command line.
pub fn cli_help(bin: &str) -> (r: String)
    ensures
        r@ == help_text(bin@),
{
    let parts: [&str; 9] = [
        "Beehive TUI\n\nUsage:\n  ",
        bin,
        "\n  ",
        bin,
        " --startup-cmd \"<command>\"\n  ",
        bin,
        " --startup-cmd ''\n  ",
        bin,
        " --help\n\nOptions:\n  --startup-cmd <command>  Save the comb startup command in ~/.beehive/config.json\n                           Runs once per comb when that comb first opens after launch\n                           Pass an empty string to clear it\n  -h, --help               Show this help text\n",
    ];
    let r = concat_strs(&parts);
    proof {
        reveal_with_fuel(concat_views, 10);
        assert(parts@ =~= seq![
            "Beehive TUI\n\nUsage:\n  ",
            bin,
            "\n  ",
            bin,
            " --startup-cmd \"<command>\"\n  ",
            bin,
            " --startup-cmd ''\n  ",
            bin,
            " --help\n\nOptions:\n  --startup-cmd <command>  Save the comb startup command in ~/.beehive/config.json\n                           Runs once per comb when that comb first opens after launch\n                           Pass an empty string to clear it\n  -h, --help               Show this help text\n",
        ]);
    }
    r
}

/// The action of a startup command value: an all-whitespace value clears the
/// saved command.
pub open spec fn startup_spec(value: Seq<char>) -> CliActionView {
    if trimmed(value).len() == 0 {
        CliActionView::ClearStartupCommand
    } else {
        CliActionView::SetStartupCommand(value)
    }
}

pub fn startup_command_action(value: String) -> (r: CliAction)
    ensures
        r@ == startup_spec(value@),
{
    if trim(value.as_str()).is_empty() {
        CliAction::ClearStartupCommand
    } else {
        CliAction::SetStartupCommand(value)
    }
}

/// The error for `--startup-cmd` without a value.
pub open spec fn missing_value_error(bin: Seq<char>) -> Seq<char> {
    "Missing value for --startup-cmd\nUsage: "@ + bin + " --startup-cmd \"<command>\""@
}

/// The error for an argument that is not recognised.
pub open spec fn unknown_argument_error(arg: Seq<char>, bin: Seq<char>) -> Seq<char> {
    "Unknown argument '"@ + arg + "'\n\n"@ + help_text(bin)
}

/// The parse of the arguments from position `i`, with `action` chosen so far.
pub open spec fn parse_from(args: Seq<Seq<char>>, bin: Seq<char>, i: int, action: CliActionView) -> Result<
    CliActionView,
    Seq<char>,
>
    decreases args.len() - i,
{
    if i < 0 || i >= args.len() {
        Ok(action)
    } else {
        let arg = args[i];
        if arg == "--help"@ || arg == "-h"@ {
            Ok(CliActionView::PrintHelp(help_text(bin)))
        } else if arg == "--startup-cmd"@ {
            if i + 1 < args.len() {
                parse_from(args, bin, i + 2, startup_spec(args[i + 1]))
            } else {
                Err(missing_value_error(bin))
            }
        } else if is_prefix("--startup-cmd="@, arg) {
            parse_from(
                args,
                bin,
                i + 1,
                startup_spec(arg.subrange("--startup-cmd="@.len() as int, arg.len() as int)),
            )
        } else {
            Err(unknown_argument_error(arg, bin))
        }
    }
}

/// The program name: the first argument, or "beehive".
pub open spec fn program_name(args: Seq<Seq<char>>) -> Seq<char> {
    if args.len() > 0 {
        args[0]
    } else {
        "beehive"@
    }
}

/// The parse of a whole command line (the first argument is the program).
pub open spec fn cli_parse_spec(args: Seq<Seq<char>>) -> Result<CliActionView, Seq<char>> {
    parse_from(args, program_name(args), 1, CliActionView::RunApp)
}

pub open spec fn result_view(r: Result<CliAction, String>) -> Result<CliActionView, Seq<char>> {
    match r {
        Ok(a) => Ok(a@),
        Err(e) => Err(e@),
    }
}

pub open spec fn strings_view(args: Seq<String>) -> Seq<Seq<char>> {
    args.map_values(|s: String| s@)
}

/// Parses the command line: `--help`/`-h` prints the help text;
/// `--startup-cmd <command>` or `--startup-cmd=<command>` saves (or, when
/// blank, clears) the comb startup command, the last one winning; no
/// argument runs the app; anything else is an error that includes the help.
pub fn parse_cli_action(args: Vec<String>) -> (r: Result<CliAction, String>)
    ensures
        result_view(r) == cli_parse_spec(strings_view(args@)),
{
    let ghost av = strings_view(args@);
    let bin: &str = if args.len() > 0 {
        args[0].as_str()
    } else {
        "beehive"
    };
    assert(bin@ == program_name(av));
    let mut action = CliAction::RunApp;
    let mut i: usize = 1;
    while i < args.len()
        invariant
            1 <= i,
            av == strings_view(args@),
            bin@ == program_name(av),
            cli_parse_spec(av) == parse_from(av, bin@, i as int, action@),
        decreases args.len() - i,
    {
        let arg = args[i].as_str();
        assert(av[i as int] == arg@);
        if str_eq(arg, "--help") || str_eq(arg, "-h") {
            return Ok(CliAction::PrintHelp(cli_help(bin)));
        }
        if str_eq(arg, "--startup-cmd") {
            if i + 1 < args.len() {
                let value = args[i + 1].clone();
                assert(av[i + 1] == value@);
                action = startup_command_action(value);
                i = i + 2;
                continue;
            } else {
                let parts: [&str; 3] = [
                    "Missing value for --startup-cmd\nUsage: ",
                    bin,
                    " --startup-cmd \"<command>\"",
                ];
                let e = concat_strs(&parts);
                proof {
                    reveal_with_fuel(concat_views, 4);
                    assert(parts@ =~= seq![
                        "Missing value for --startup-cmd\nUsage: ",
                        bin,
                        " --startup-cmd \"<command>\"",
                    ]);
                }
                return Err(e);
            }
        }
        if str_starts_with(arg, "--startup-cmd=") {
            let prefix_len = "--startup-cmd=".unicode_len();
            let value = arg.substring_char(prefix_len, arg.unicode_len());
            action = startup_command_action(value.to_owned());
            i = i + 1;
            continue;
        }
        let help = cli_help(bin);
        let help_str = help.as_str();
        let parts: [&str; 4] = ["Unknown argument '", arg, "'\n\n", help_str];
        let e = concat_strs(&parts);
        proof {
            reveal_with_fuel(concat_views, 5);
            assert(parts@ =~= seq!["Unknown argument '", arg, "'\n\n", help_str]);
        }
        return Err(e);
    }
    Ok(action)
}

} // verus!
