//! The integer-valued part of the command-line front end: which command the
//! arguments name, and the options of the `primes` and `ml` commands.

use vstd::prelude::*;
use crate::text::parse_i32;
use crate::text::parse_i32_spec;
use crate::text::parse_usize;
use crate::text::parse_usize_spec;
use crate::text::same_text;

verus! {

/// The command that the first argument after the program name selects.
#[derive(Debug, Clone, Copy, PartialEq, Eq, Structural)]
pub enum CliCommand {
    Simulate,
    Optimize,
    Validate,
    Ml,
    Primes,
    Waveguide,
    Tonehole,
    Help,
    Unknown,
}

/// The texts of the arguments.
pub open spec fn texts(args: Seq<String>) -> Seq<Seq<char>> {
    args.map_values(|a: String| a@)
}

/// The command a command name selects.
pub open spec fn command_named(name: Seq<char>) -> CliCommand {
    if name == "simulate"@ {
        CliCommand::Simulate
    } else if name == "optimize"@ {
        CliCommand::Optimize
    } else if name == "validate"@ {
        CliCommand::Validate
    } else if name == "ml"@ {
        CliCommand::Ml
    } else if name == "primes"@ {
        CliCommand::Primes
    } else if name == "waveguide"@ {
        CliCommand::Waveguide
    } else if name == "tonehole"@ {
        CliCommand::Tonehole
    } else if name == "help"@ || name == "--help"@ || name == "-h"@ {
        CliCommand::Help
    } else {
        CliCommand::Unknown
    }
}

/// Help when no command is given, else the command its name selects.
pub open spec fn command_of(args: Seq<Seq<char>>) -> CliCommand {
    if args.len() < 2 {
        CliCommand::Help
    } else {
        command_named(args[1])
    }
}

/// The command the arguments (program name first) select.
pub fn cli_command(args: &Vec<String>) -> (r: CliCommand)
    ensures
        r == command_of(texts(args@)),
{
    if args.len() < 2 {
        return CliCommand::Help;
    }
    let name = args[1].as_str();
    assert(name@ == texts(args@)[1]);
    if same_text(name, "simulate") {
        CliCommand::Simulate
    } else if same_text(name, "optimize") {
        CliCommand::Optimize
    } else if same_text(name, "validate") {
        CliCommand::Validate
    } else if same_text(name, "ml") {
        CliCommand::Ml
    } else if same_text(name, "primes") {
        CliCommand::Primes
    } else if same_text(name, "waveguide") {
        CliCommand::Waveguide
    } else if same_text(name, "tonehole") {
        CliCommand::Tonehole
    } else if same_text(name, "help") || same_text(name, "--help") || same_text(name, "-h") {
        CliCommand::Help
    } else {
        CliCommand::Unknown
    }
}

/// The value of the argument after an option, read as a `usize`; `default`
/// when that argument is missing or is no such number.
pub open spec fn usize_option(args: Seq<Seq<char>>, i: int, default: int) -> int {
    if 0 <= i < args.len() {
        match parse_usize_spec(args[i]) {
            Some(v) => v,
            None => default,
        }
    } else {
        default
    }
}

/// The value of the argument after an option, read as an `i32`; `default`
/// when that argument is missing or is no such number.
pub open spec fn i32_option(args: Seq<Seq<char>>, i: int, default: int) -> int {
    if 0 <= i < args.len() {
        match parse_i32_spec(args[i]) {
            Some(v) => v,
            None => default,
        }
    } else {
        default
    }
}

/// Options of the `primes list` command.
#[derive(Debug, Clone, Copy, PartialEq, Eq, Structural)]
pub struct PrimesListArgs {
    /// Largest number to look for primes in (`--max`, default 100).
    pub max_prime: usize,
    /// Print JSON (`--json`).
    pub json: bool,
}

/// Scans the arguments from position `i` on, left to right: `--max` takes
/// the next argument as its value and skips it, `--json` sets the flag, and
/// anything else is passed over.
pub open spec fn scan_primes_list(args: Seq<Seq<char>>, i: int, max_prime: int, json: bool) -> (
    int,
    bool,
)
    decreases args.len() + 1 - i,
{
    if i < 0 || i >= args.len() {
        (max_prime, json)
    } else if args[i] == "--max"@ {
        scan_primes_list(args, i + 2, usize_option(args, i + 1, 100), json)
    } else if args[i] == "--json"@ {
        scan_primes_list(args, i + 1, max_prime, true)
    } else {
        scan_primes_list(args, i + 1, max_prime, json)
    }
}

/// Reads the options of `primes list` from the arguments after the program
/// name, the command and its subcommand.
pub fn parse_primes_list_args(args: &Vec<String>) -> (r: PrimesListArgs)
    ensures
        (r.max_prime as int, r.json) == scan_primes_list(texts(args@), 3, 100, false),
{
    let ghost all = texts(args@);
    let mut max_prime: usize = 100;
    let mut json = false;
    let mut i: usize = 3;
    while i < args.len()
        invariant
            all == texts(args@),
            3 <= i <= args@.len() + 3,
            scan_primes_list(all, i as int, max_prime as int, json) == scan_primes_list(
                all,
                3,
                100,
                false,
            ),
        decreases args@.len() + 1 - i,
    {
        let arg = args[i].as_str();
        assert(arg@ == all[i as int]);
        if same_text(arg, "--max") {
            if i + 1 < args.len() {
                assert(args[i + 1 as int]@ == all[i + 1]);
                max_prime = match parse_usize(args[i + 1].as_str()) {
                    Some(v) => v,
                    None => 100,
                };
                i += 2;
            } else {
                assert(scan_primes_list(all, i + 2, 100, json) == (100int, json));
                max_prime = 100;
                i += 1;
                assert(scan_primes_list(all, i as int, 100, json) == (100int, json));
            }
        } else if same_text(arg, "--json") {
            json = true;
            i += 1;
        } else {
            i += 1;
        }
    }
    PrimesListArgs { max_prime, json }
}

/// Options of the `ml primes` command.
#[derive(Debug, Clone, Copy, PartialEq, Eq, Structural)]
pub struct MlPrimesArgs {
    /// Largest prime kernel size (`--max-prime`, default 17).
    pub max_prime: usize,
    /// Length of the input signal (`--input`, default 10).
    pub input_len: i32,
    /// Print JSON (`--json`).
    pub json: bool,
}

/// Scans the arguments from position `i` on, left to right: `--max-prime`
/// and `--input` take the next argument as their value and skip it, `--json`
/// sets the flag, and anything else is passed over.
pub open spec fn scan_ml_primes(
    args: Seq<Seq<char>>,
    i: int,
    max_prime: int,
    input_len: int,
    json: bool,
) -> (int, int, bool)
    decreases args.len() + 1 - i,
{
    if i < 0 || i >= args.len() {
        (max_prime, input_len, json)
    } else if args[i] == "--max-prime"@ {
        scan_ml_primes(args, i + 2, usize_option(args, i + 1, 17), input_len, json)
    } else if args[i] == "--input"@ {
        scan_ml_primes(args, i + 2, max_prime, i32_option(args, i + 1, 10), json)
    } else if args[i] == "--json"@ {
        scan_ml_primes(args, i + 1, max_prime, input_len, true)
    } else {
        scan_ml_primes(args, i + 1, max_prime, input_len, json)
    }
}

/// Reads the options of `ml primes` from the arguments after the program
/// name, the command and its subcommand.
pub fn parse_ml_primes_args(args: &Vec<String>) -> (r: MlPrimesArgs)
    ensures
        (r.max_prime as int, r.input_len as int, r.json) == scan_ml_primes(
            texts(args@),
            3,
            17,
            10,
            false,
        ),
{
    let ghost all = texts(args@);
    let mut max_prime: usize = 17;
    let mut input_len: i32 = 10;
    let mut json = false;
    let mut i: usize = 3;
    while i < args.len()
        invariant
            all == texts(args@),
            3 <= i <= args@.len() + 3,
            scan_ml_primes(all, i as int, max_prime as int, input_len as int, json)
                == scan_ml_primes(all, 3, 17, 10, false),
        decreases args@.len() + 1 - i,
    {
        let arg = args[i].as_str();
        assert(arg@ == all[i as int]);
        if same_text(arg, "--max-prime") {
            if i + 1 < args.len() {
                assert(args[i + 1 as int]@ == all[i + 1]);
                max_prime = match parse_usize(args[i + 1].as_str()) {
                    Some(v) => v,
                    None => 17,
                };
                i += 2;
            } else {
                assert(scan_ml_primes(all, i + 2, 17, input_len as int, json) == (
                    17int,
                    input_len as int,
                    json,
                ));
                max_prime = 17;
                i += 1;
                assert(scan_ml_primes(all, i as int, 17, input_len as int, json) == (
                    17int,
                    input_len as int,
                    json,
                ));
            }
        } else if same_text(arg, "--input") {
            if i + 1 < args.len() {
                assert(args[i + 1 as int]@ == all[i + 1]);
                input_len = match parse_i32(args[i + 1].as_str()) {
                    Some(v) => v,
                    None => 10,
                };
                i += 2;
            } else {
                assert(scan_ml_primes(all, i + 2, max_prime as int, 10, json) == (
                    max_prime as int,
                    10int,
                    json,
                ));
                input_len = 10;
                i += 1;
                assert(scan_ml_primes(all, i as int, max_prime as int, 10, json) == (
                    max_prime as int,
                    10int,
                    json,
                ));
            }
        } else if same_text(arg, "--json") {
            json = true;
            i += 1;
        } else {
            i += 1;
        }
    }
    MlPrimesArgs { max_prime, input_len, json }
}

/// Each command name selects its own command, and a missing command name
/// selects help.
pub proof fn lemma_command_names(args: Seq<Seq<char>>)
    ensures
        args.len() < 2 ==> command_of(args) == CliCommand::Help,
        args.len() >= 2 && args[1] == "simulate"@ ==> command_of(args) == CliCommand::Simulate,
        args.len() >= 2 && args[1] == "optimize"@ ==> command_of(args) == CliCommand::Optimize,
        args.len() >= 2 && args[1] == "validate"@ ==> command_of(args) == CliCommand::Validate,
        args.len() >= 2 && args[1] == "ml"@ ==> command_of(args) == CliCommand::Ml,
        args.len() >= 2 && args[1] == "primes"@ ==> command_of(args) == CliCommand::Primes,
        args.len() >= 2 && args[1] == "waveguide"@ ==> command_of(args) == CliCommand::Waveguide,
        args.len() >= 2 && args[1] == "tonehole"@ ==> command_of(args) == CliCommand::Tonehole,
        args.len() >= 2 && (args[1] == "help"@ || args[1] == "--help"@ || args[1] == "-h"@)
            ==> command_of(args) == CliCommand::Help,
{
    reveal_strlit("simulate");
    reveal_strlit("optimize");
    reveal_strlit("validate");
    reveal_strlit("ml");
    reveal_strlit("primes");
    reveal_strlit("waveguide");
    reveal_strlit("tonehole");
    reveal_strlit("help");
    reveal_strlit("--help");
    reveal_strlit("-h");
    assert("simulate"@[0] != "optimize"@[0]);
    assert("simulate"@[0] != "validate"@[0]);
    assert("optimize"@[0] != "validate"@[0]);
    assert("simulate"@.len() != "ml"@.len());
    assert("optimize"@.len() != "ml"@.len());
    assert("validate"@.len() != "ml"@.len());
    assert("simulate"@.len() != "primes"@.len());
    assert("optimize"@.len() != "primes"@.len());
    assert("validate"@.len() != "primes"@.len());
    assert("ml"@.len() != "primes"@.len());
    assert("simulate"@.len() != "waveguide"@.len());
    assert("optimize"@.len() != "waveguide"@.len());
    assert("validate"@.len() != "waveguide"@.len());
    assert("ml"@.len() != "waveguide"@.len());
    assert("primes"@.len() != "waveguide"@.len());
    assert("simulate"@[0] != "tonehole"@[0]);
    assert("optimize"@[0] != "tonehole"@[0]);
    assert("validate"@[0] != "tonehole"@[0]);
    assert("ml"@.len() != "tonehole"@.len());
    assert("primes"@.len() != "tonehole"@.len());
    assert("waveguide"@.len() != "tonehole"@.len());
    assert("simulate"@.len() != "help"@.len());
    assert("optimize"@.len() != "help"@.len());
    assert("validate"@.len() != "help"@.len());
    assert("ml"@.len() != "help"@.len());
    assert("primes"@.len() != "help"@.len());
    assert("waveguide"@.len() != "help"@.len());
    assert("tonehole"@.len() != "help"@.len());
    assert("simulate"@[0] != "--help"@[0]);
    assert("optimize"@[0] != "--help"@[0]);
    assert("validate"@[0] != "--help"@[0]);
    assert("ml"@.len() != "--help"@.len());
    assert("primes"@[0] != "--help"@[0]);
    assert("waveguide"@[0] != "--help"@[0]);
    assert("tonehole"@[0] != "--help"@[0]);
    assert("simulate"@.len() != "-h"@.len());
    assert("optimize"@.len() != "-h"@.len());
    assert("validate"@.len() != "-h"@.len());
    assert("ml"@[0] != "-h"@[0]);
    assert("primes"@.len() != "-h"@.len());
    assert("waveguide"@.len() != "-h"@.len());
    assert("tonehole"@.len() != "-h"@.len());
}

/// The seven command names other than help select seven different commands,
/// none of them help or unknown.
pub proof fn lemma_command_names_distinct(a: Seq<char>, b: Seq<char>)
    requires
        a == "simulate"@ || a == "optimize"@ || a == "validate"@ || a == "ml"@ || a == "primes"@
            || a == "waveguide"@ || a == "tonehole"@,
        b == "simulate"@ || b == "optimize"@ || b == "validate"@ || b == "ml"@ || b == "primes"@
            || b == "waveguide"@ || b == "tonehole"@,
        command_named(a) == command_named(b),
    ensures
        a == b,
        command_named(a) != CliCommand::Help,
        command_named(a) != CliCommand::Unknown,
{
    lemma_command_names(seq![Seq::empty(), a]);
    lemma_command_names(seq![Seq::empty(), b]);
    assert(seq![Seq::<char>::empty(), a][1] == a);
    assert(seq![Seq::<char>::empty(), b][1] == b);
}

/// Scanning `a` from `k + 1` is scanning `b` from `k` when `b` is `a` with
/// one argument before position `k + 1` taken out.
proof fn lemma_primes_list_shift(a: Seq<Seq<char>>, b: Seq<Seq<char>>, k: int, m: int, j: bool)
    requires
        0 <= k,
        b.len() + 1 == a.len(),
        forall|t: int| k <= t < b.len() ==> b[t] == a[t + 1],
    ensures
        scan_primes_list(a, k + 1, m, j) == scan_primes_list(b, k, m, j),
    decreases a.len() - k,
{
    if k < b.len() {
        assert(a[k + 1] == b[k]);
        if b[k] == "--max"@ {
            if k + 1 < b.len() {
                assert(a[k + 2] == b[k + 1]);
            }
            assert(usize_option(a, k + 2, 100) == usize_option(b, k + 1, 100));
            lemma_primes_list_shift(a, b, k + 2, usize_option(b, k + 1, 100), j);
        } else if b[k] == "--json"@ {
            lemma_primes_list_shift(a, b, k + 1, m, true);
        } else {
            lemma_primes_list_shift(a, b, k + 1, m, j);
        }
    }
}

/// Once the flag is set it stays set, and the flag never changes the limit.
proof fn lemma_primes_list_flag(a: Seq<Seq<char>>, k: int, m: int)
    ensures
        scan_primes_list(a, k, m, true) == (scan_primes_list(a, k, m, false).0, true),
    decreases a.len() + 1 - k,
{
    if 0 <= k < a.len() {
        if a[k] == "--max"@ {
            lemma_primes_list_flag(a, k + 2, usize_option(a, k + 1, 100));
        } else if a[k] == "--json"@ {
            lemma_primes_list_flag(a, k + 1, m);
        } else {
            lemma_primes_list_flag(a, k + 1, m);
        }
    }
}

/// `--json` consumes only itself: where the scan of `primes list` reaches a
/// `--json`, the result is that of the same arguments without it, with the
/// flag set. So `--json` may stand before or after `--max N`.
pub proof fn lemma_primes_list_json_only_itself(a: Seq<Seq<char>>, i: int, m: int, j: bool)
    requires
        0 <= i < a.len(),
        a[i] == "--json"@,
    ensures
        scan_primes_list(a, i, m, j) == (scan_primes_list(a.remove(i), i, m, j).0, true),
{
    reveal_strlit("--json");
    reveal_strlit("--max");
    assert("--json"@.len() != "--max"@.len());
    let b = a.remove(i);
    assert forall|t: int| i <= t < b.len() implies b[t] == a[t + 1] by {}
    lemma_primes_list_flag(a, i + 1, m);
    lemma_primes_list_shift(a, b, i, m, false);
    lemma_primes_list_flag(b, i, m);
}

/// Scanning `a` from `k + 1` is scanning `b` from `k` when `b` is `a` with
/// one argument before position `k + 1` taken out.
proof fn lemma_ml_primes_shift(
    a: Seq<Seq<char>>,
    b: Seq<Seq<char>>,
    k: int,
    m: int,
    n: int,
    j: bool,
)
    requires
        0 <= k,
        b.len() + 1 == a.len(),
        forall|t: int| k <= t < b.len() ==> b[t] == a[t + 1],
    ensures
        scan_ml_primes(a, k + 1, m, n, j) == scan_ml_primes(b, k, m, n, j),
    decreases a.len() - k,
{
    if k < b.len() {
        assert(a[k + 1] == b[k]);
        if k + 1 < b.len() {
            assert(a[k + 2] == b[k + 1]);
        }
        assert(usize_option(a, k + 2, 17) == usize_option(b, k + 1, 17));
        assert(i32_option(a, k + 2, 10) == i32_option(b, k + 1, 10));
        if b[k] == "--max-prime"@ {
            lemma_ml_primes_shift(a, b, k + 2, usize_option(b, k + 1, 17), n, j);
        } else if b[k] == "--input"@ {
            lemma_ml_primes_shift(a, b, k + 2, m, i32_option(b, k + 1, 10), j);
        } else if b[k] == "--json"@ {
            lemma_ml_primes_shift(a, b, k + 1, m, n, true);
        } else {
            lemma_ml_primes_shift(a, b, k + 1, m, n, j);
        }
    }
}

/// Once the flag is set it stays set, and the flag never changes the values.
proof fn lemma_ml_primes_flag(a: Seq<Seq<char>>, k: int, m: int, n: int)
    ensures
        ({
            let off = scan_ml_primes(a, k, m, n, false);
            scan_ml_primes(a, k, m, n, true) == (off.0, off.1, true)
        }),
    decreases a.len() + 1 - k,
{
    if 0 <= k < a.len() {
        if a[k] == "--max-prime"@ {
            lemma_ml_primes_flag(a, k + 2, usize_option(a, k + 1, 17), n);
        } else if a[k] == "--input"@ {
            lemma_ml_primes_flag(a, k + 2, m, i32_option(a, k + 1, 10));
        } else {
            lemma_ml_primes_flag(a, k + 1, m, n);
        }
    }
}

/// `--json` consumes only itself: where the scan of `ml primes` reaches a
/// `--json`, the result is that of the same arguments without it, with the
/// flag set. So `--max-prime` and `--input` after `--json` are still read.
pub proof fn lemma_ml_primes_json_only_itself(a: Seq<Seq<char>>, i: int, m: int, n: int, j: bool)
    requires
        0 <= i < a.len(),
        a[i] == "--json"@,
    ensures
        ({
            let without = scan_ml_primes(a.remove(i), i, m, n, j);
            scan_ml_primes(a, i, m, n, j) == (without.0, without.1, true)
        }),
{
    reveal_strlit("--json");
    reveal_strlit("--max-prime");
    reveal_strlit("--input");
    assert("--json"@.len() != "--max-prime"@.len());
    assert("--json"@.len() != "--input"@.len());
    let b = a.remove(i);
    assert forall|t: int| i <= t < b.len() implies b[t] == a[t + 1] by {}
    lemma_ml_primes_flag(a, i + 1, m, n);
    lemma_ml_primes_shift(a, b, i, m, n, false);
    lemma_ml_primes_flag(b, i, m, n);
}

/// The texts of a table of option names.
pub open spec fn name_texts(names: Seq<&str>) -> Seq<Seq<char>> {
    names.map_values(|n: &str| n@)
}

/// The first position from `j` on at which `names` holds `arg`.
pub open spec fn option_position(names: Seq<Seq<char>>, arg: Seq<char>, j: int) -> Option<int>
    decreases names.len() - j,
{
    if j < 0 || j >= names.len() {
        None
    } else if names[j] == arg {
        Some(j)
    } else {
        option_position(names, arg, j + 1)
    }
}

/// The argument at position `i`, if there is one.
pub open spec fn argument_at(args: Seq<Seq<char>>, i: int) -> Option<Seq<char>> {
    if 0 <= i < args.len() {
        Some(args[i])
    } else {
        None
    }
}

/// The options found scanning the arguments from position `i` on, left to
/// right, against a table of option names of which those marked in `valued`
/// take a value: a named option that takes a value yields its position in the
/// table and the next argument (none when the arguments end), which is then
/// skipped; a named flag yields its position and no value; any other
/// argument is passed over. The first table entry with the argument's name
/// decides.
pub open spec fn scan_events(
    args: Seq<Seq<char>>,
    i: int,
    names: Seq<Seq<char>>,
    valued: Seq<bool>,
) -> Seq<(int, Option<Seq<char>>)>
    decreases args.len() + 1 - i,
{
    if i < 0 || i >= args.len() {
        Seq::empty()
    } else {
        match option_position(names, args[i], 0) {
            Some(k) => if valued[k] {
                seq![(k, argument_at(args, i + 1))] + scan_events(args, i + 2, names, valued)
            } else {
                seq![(k, None::<Seq<char>>)] + scan_events(args, i + 1, names, valued)
            },
            None => scan_events(args, i + 1, names, valued),
        }
    }
}

/// The found options as positions and value texts.
pub open spec fn events_view(events: Seq<(usize, Option<String>)>) -> Seq<(int, Option<Seq<char>>)> {
    events.map_values(
        |e: (usize, Option<String>)|
            (
                e.0 as int,
                match e.1 {
                    Some(v) => Some(v@),
                    None => None,
                },
            ),
    )
}

/// A position found from `j` on lies at or after `j`, inside the table.
proof fn lemma_option_position_range(names: Seq<Seq<char>>, arg: Seq<char>, j: int)
    ensures
        option_position(names, arg, j) matches Some(k) ==> 0 <= j <= k < names.len(),
    decreases names.len() - j,
{
    if 0 <= j < names.len() && names[j] != arg {
        lemma_option_position_range(names, arg, j + 1);
    }
}

/// The position of `arg` in the table of option names, if it is there.
fn find_option(names: &Vec<&str>, arg: &str) -> (r: Option<usize>)
    ensures
        match r {
            Some(k) => option_position(name_texts(names@), arg@, 0) == Some(k as int),
            None => option_position(name_texts(names@), arg@, 0) is None,
        },
{
    let ghost table = name_texts(names@);
    let mut j: usize = 0;
    while j < names.len()
        invariant
            table == name_texts(names@),
            j <= names@.len(),
            option_position(table, arg@, 0) == option_position(table, arg@, j as int),
        decreases names@.len() - j,
    {
        assert(table[j as int] == names@[j as int]@);
        if same_text(names[j], arg) {
            return Some(j);
        }
        j += 1;
    }
    None
}

/// Scans the arguments from position `start` on against a table of option
/// names, of which those marked in `valued` take a value, and returns the
/// options found in order: each as its position in the table and, for an
/// option that takes a value, the next argument (none when the arguments
/// end).
pub fn scan_options(
    args: &Vec<String>,
    start: usize,
    names: &Vec<&str>,
    valued: &Vec<bool>,
) -> (r: Vec<(usize, Option<String>)>)
    requires
        names@.len() == valued@.len(),
    ensures
        events_view(r@) == scan_events(texts(args@), start as int, name_texts(names@), valued@),
{
    let ghost all = texts(args@);
    let ghost table = name_texts(names@);
    let mut out: Vec<(usize, Option<String>)> = Vec::new();
    let mut i: usize = start;
    while i < args.len()
        invariant
            all == texts(args@),
            table == name_texts(names@),
            names@.len() == valued@.len(),
            start <= i,
            i <= args@.len() + 1 || i == start,
            events_view(out@) + scan_events(all, i as int, table, valued@) == scan_events(
                all,
                start as int,
                table,
                valued@,
            ),
        decreases args@.len() + 1 - i,
    {
        let arg = args[i].as_str();
        assert(arg@ == all[i as int]);
        let ghost rest = scan_events(all, i as int, table, valued@);
        proof {
            lemma_option_position_range(table, all[i as int], 0);
        }
        match find_option(names, arg) {
            Some(k) => {
                assert(option_position(table, all[i as int], 0) == Some(k as int));
                if valued[k] {
                    let value = if i + 1 < args.len() {
                        assert(args@[i + 1]@ == all[i + 1]);
                        Some(args[i + 1].clone())
                    } else {
                        None
                    };
                    let ghost event = (k as int, argument_at(all, i + 1));
                    let ghost old_out = out@;
                    out.push((k, value));
                    assert(events_view(out@) =~= events_view(old_out).push(event));
                    assert(rest == seq![event] + scan_events(all, i + 2, table, valued@));
                    assert(events_view(old_out).push(event) + scan_events(all, i + 2, table, valued@)
                        =~= events_view(old_out) + rest);
                    if i + 1 < args.len() {
                        i += 2;
                    } else {
                        assert(scan_events(all, i + 2, table, valued@) =~= Seq::empty());
                        i += 1;
                        assert(scan_events(all, i as int, table, valued@) =~= Seq::empty());
                    }
                } else {
                    let ghost event = (k as int, None::<Seq<char>>);
                    let ghost old_out = out@;
                    out.push((k, None));
                    assert(events_view(out@) =~= events_view(old_out).push(event));
                    assert(rest == seq![event] + scan_events(all, i + 1, table, valued@));
                    assert(events_view(old_out).push(event) + scan_events(all, i + 1, table, valued@)
                        =~= events_view(old_out) + rest);
                    i += 1;
                }
            },
            None => {
                i += 1;
            },
        }
    }
    assert(scan_events(all, i as int, table, valued@) =~= Seq::empty());
    assert(events_view(out@) + Seq::empty() =~= events_view(out@));
    out
}

} // verus!
