//! The command line: `--grid` anywhere, `export <project> [output]` for a
//! headless export, `-h` / `--help`, or an optional file to open in the
//! window.

use vstd::prelude::*;

verus! {

/// The flag that bakes the grid into a headless export.
pub const GRID_FLAG: &'static str = "--grid";

/// The subcommand of a headless export.
pub const EXPORT_COMMAND: &'static str = "export";

/// Where a headless export writes when no output path is given.
pub const DEFAULT_OUTPUT: &'static str = "homokuzel_output.png";

/// What the program is asked to do.
pub enum Command {
    /// Export the birdseye map of a project file, optionally with the grid.
    Export { project_path: String, output_path: String, with_grid: bool },
    /// `export` without a project file: show the usage and fail.
    ExportUsage,
    /// Show the usage.
    Help,
    /// Open the window, with the given file loaded if there is one.
    Gui { initial_file: Option<String> },
}

/// The arguments as text.
pub open spec fn arg_texts(args: Seq<String>) -> Seq<Seq<char>> {
    args.map_values(|s: String| s@)
}

/// The arguments other than the grid flag, in order.
pub open spec fn without_grid_flag(args: Seq<Seq<char>>) -> Seq<Seq<char>> {
    args.filter(|a: Seq<char>| a != GRID_FLAG@)
}

/// `c` is what the arguments `args` (the program's name first) ask for.
pub open spec fn command_for(args: Seq<Seq<char>>, c: Command) -> bool {
    let rest = without_grid_flag(args);
    if rest.len() >= 2 && rest[1] == EXPORT_COMMAND@ {
        if rest.len() < 3 {
            c is ExportUsage
        } else {
            c matches Command::Export { project_path, output_path, with_grid } && {
                &&& project_path@ == rest[2]
                &&& output_path@ == if rest.len() > 3 { rest[3] } else { DEFAULT_OUTPUT@ }
                &&& with_grid == args.contains(GRID_FLAG@)
            }
        }
    } else if rest.len() >= 2 && (rest[1] == "-h"@ || rest[1] == "--help"@) {
        c is Help
    } else {
        c matches Command::Gui { initial_file } && if rest.len() >= 2 {
            initial_file matches Some(f) && f@ == rest[1]
        } else {
            initial_file is None
        }
    }
}

fn text_is(a: &String, lit: &str) -> (b: bool)
    ensures
        b == (a@ == lit@),
{
    let l = String::from_str(lit);
    *a == l
}

/// An export bakes the grid into the map exactly when some argument is
/// `--grid`, wherever it stands and whether or not an output path is given.
pub proof fn lemma_export_grid_iff_flag(args: Seq<Seq<char>>, c: Command)
    requires
        command_for(args, c),
        c is Export,
    ensures
        c->with_grid <==> exists|k: int| 0 <= k < args.len() && args[k] == "--grid"@,
{
}

/// Arguments without `--grid` are all kept.
proof fn lemma_no_flag_keeps_args(args: Seq<Seq<char>>)
    requires
        forall|k: int| 0 <= k < args.len() ==> args[k] != "--grid"@,
    ensures
        without_grid_flag(args) == args,
    decreases args.len(),
{
    reveal_with_fuel(Seq::<_>::filter, 1);
    if args.len() > 0 {
        lemma_no_flag_keeps_args(args.drop_last());
        assert(args.drop_last().push(args.last()) =~= args);
    }
}

/// `export` followed by a project path and an output path, with no
/// `--grid` anywhere, exports that project to that output without the grid;
/// with no output path it writes to `homokuzel_output.png`; with no
/// project path it asks for the usage.
pub proof fn lemma_export_without_flag(args: Seq<Seq<char>>, c: Command)
    requires
        command_for(args, c),
        args.len() >= 2,
        args[1] == "export"@,
        forall|k: int| 0 <= k < args.len() ==> args[k] != "--grid"@,
    ensures
        args.len() == 2 ==> c is ExportUsage,
        args.len() == 3 ==> (c matches Command::Export { project_path, output_path, with_grid }
            && project_path@ == args[2] && output_path@ == "homokuzel_output.png"@ && !with_grid),
        args.len() == 4 ==> (c matches Command::Export { project_path, output_path, with_grid }
            && project_path@ == args[2] && output_path@ == args[3] && !with_grid),
{
    lemma_no_flag_keeps_args(args);
}

/// Without `--grid`, `-h` or `--help` as the first argument asks for the
/// usage; no argument opens the window empty; one argument that is none of
/// `export`, `-h` and `--help` opens the window with that file.
pub proof fn lemma_help_and_window(args: Seq<Seq<char>>, c: Command)
    requires
        command_for(args, c),
        args.len() >= 1,
        forall|k: int| 0 <= k < args.len() ==> args[k] != "--grid"@,
    ensures
        args.len() >= 2 && (args[1] == "-h"@ || args[1] == "--help"@) ==> c is Help,
        args.len() == 1 ==> (c matches Command::Gui { initial_file } && initial_file is None),
        args.len() == 2 && args[1] != "export"@ && args[1] != "-h"@ && args[1] != "--help"@
            ==> (c matches Command::Gui { initial_file } && initial_file matches Some(f) && f@ == args[1]),
{
    lemma_no_flag_keeps_args(args);
    reveal_strlit("export");
    reveal_strlit("-h");
    reveal_strlit("--help");
    if args.len() >= 2 && (args[1] == "-h"@ || args[1] == "--help"@) {
        assert(args[1][1] != "export"@[1]);
    }
}

/// Reads the command line `args`, the program's name first.
pub fn parse_command_line(args: &Vec<String>) -> (c: Command)
    ensures
        command_for(arg_texts(args@), c),
{
    let ghost texts = arg_texts(args@);
    let ghost pred = |a: Seq<char>| a != GRID_FLAG@;
    let mut with_grid = false;
    let mut rest: Vec<String> = Vec::new();
    let n = args.len();
    let mut i: usize = 0;
    while i < n
        invariant
            n == args@.len(),
            i <= n,
            texts == arg_texts(args@),
            pred == (|a: Seq<char>| a != GRID_FLAG@),
            with_grid == texts.take(i as int).contains(GRID_FLAG@),
            arg_texts(rest@) == texts.take(i as int).filter(pred),
        decreases n - i,
    {
        proof {
            reveal_with_fuel(Seq::<_>::filter, 1);
            assert(texts.take(i + 1).drop_last() =~= texts.take(i as int));
            assert(texts.take(i + 1).last() == args@[i as int]@);
        }
        if text_is(&args[i], GRID_FLAG) {
            if !with_grid {
                assert(texts.take(i + 1)[i as int] == GRID_FLAG@);
            }
            with_grid = true;
        } else {
            if with_grid {
                let ghost k = choose|k: int| 0 <= k < i && texts.take(i as int)[k] == GRID_FLAG@;
                assert(texts.take(i + 1)[k] == GRID_FLAG@);
            } else {
                assert forall|k: int| 0 <= k < i + 1 implies #[trigger] texts.take(i + 1)[k] != GRID_FLAG@ by {
                    if k < i {
                        assert(texts.take(i + 1)[k] == texts.take(i as int)[k]);
                    }
                }
            }
            rest.push(args[i].clone());
            assert(arg_texts(rest@) =~= texts.take(i as int).filter(pred).push(args@[i as int]@));
        }
        i = i + 1;
    }
    assert(texts.take(n as int) =~= texts);
    assert(without_grid_flag(texts) == texts.filter(pred));
    let m = rest.len();
    if m >= 2 && text_is(&rest[1], EXPORT_COMMAND) {
        if m < 3 {
            return Command::ExportUsage;
        }
        let project_path = rest[2].clone();
        let output_path = if m > 3 {
            rest[3].clone()
        } else {
            String::from_str(DEFAULT_OUTPUT)
        };
        return Command::Export { project_path, output_path, with_grid };
    }
    if m >= 2 && (text_is(&rest[1], "-h") || text_is(&rest[1], "--help")) {
        return Command::Help;
    }
    if m >= 2 {
        Command::Gui { initial_file: Some(rest[1].clone()) }
    } else {
        Command::Gui { initial_file: None }
    }
}

} // verus!
