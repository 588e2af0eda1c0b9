use cadsd::cli::cli_command;
use cadsd::cli::parse_ml_primes_args;
use cadsd::cli::parse_primes_list_args;
use cadsd::cli::CliCommand;
use cadsd::cli::MlPrimesArgs;
use cadsd::cli::PrimesListArgs;
use cadsd::cli::scan_options;
use cadsd::export::GeometryExporter;
use cadsd::text::parse_i32;
use cadsd::text::parse_usize;
use cadsd::text::same_text;

fn args(list: &[&str]) -> Vec<String> {
    list.iter().map(|s| s.to_string()).collect()
}

#[test]
fn commands_are_named_by_the_first_argument() {
    assert_eq!(cli_command(&args(&["cli"])), CliCommand::Help);
    assert_eq!(cli_command(&args(&["cli", "simulate", "cone"])), CliCommand::Simulate);
    assert_eq!(cli_command(&args(&["cli", "primes", "list"])), CliCommand::Primes);
    assert_eq!(cli_command(&args(&["cli", "ml"])), CliCommand::Ml);
    assert_eq!(cli_command(&args(&["cli", "-h"])), CliCommand::Help);
    assert_eq!(cli_command(&args(&["cli", "--help"])), CliCommand::Help);
    assert_eq!(cli_command(&args(&["cli", "frobnicate"])), CliCommand::Unknown);
}

#[test]
fn primes_list_options() {
    let none = parse_primes_list_args(&args(&["cli", "primes", "list"]));
    assert_eq!(none, PrimesListArgs { max_prime: 100, json: false });
    let both = parse_primes_list_args(&args(&["cli", "primes", "list", "--max", "50", "--json"]));
    assert_eq!(both, PrimesListArgs { max_prime: 50, json: true });
    // A value that is no number falls back to the default, and the option
    // consumes it even when it looks like another option.
    let bad = parse_primes_list_args(&args(&["cli", "primes", "list", "--max", "--json"]));
    assert_eq!(bad, PrimesListArgs { max_prime: 100, json: false });
    let last = parse_primes_list_args(&args(&["cli", "primes", "list", "--max", "7", "x", "--max", "+9"]));
    assert_eq!(last, PrimesListArgs { max_prime: 9, json: false });
    let missing = parse_primes_list_args(&args(&["cli", "primes", "list", "--max"]));
    assert_eq!(missing, PrimesListArgs { max_prime: 100, json: false });
    // Arguments before the fourth are not options.
    let early = parse_primes_list_args(&args(&["cli", "primes", "--json"]));
    assert_eq!(early, PrimesListArgs { max_prime: 100, json: false });
}

#[test]
fn ml_primes_options() {
    let none = parse_ml_primes_args(&args(&["cli", "ml", "primes"]));
    assert_eq!(none, MlPrimesArgs { max_prime: 17, input_len: 10, json: false });
    let all = parse_ml_primes_args(&args(&["cli", "ml", "primes", "--input", "-3", "--max-prime", "31", "--json"]));
    assert_eq!(all, MlPrimesArgs { max_prime: 31, input_len: -3, json: true });
    let bad = parse_ml_primes_args(&args(&["cli", "ml", "primes", "--input", "2147483648"]));
    assert_eq!(bad, MlPrimesArgs { max_prime: 17, input_len: 10, json: false });
}

#[test]
fn numbers_parse_as_std_parses_them() {
    for s in ["0", "7", "+12", "0042", "", "+", "-", "-1", " 1", "1 ", "12a", "18446744073709551615", "18446744073709551616", "99999999999999999999999"] {
        assert_eq!(parse_usize(s), s.parse::<usize>().ok(), "{:?}", s);
    }
    for s in ["0", "-0", "+5", "-5", "2147483647", "2147483648", "-2147483648", "-2147483649", "--1", "", "-", "+", "1e3"] {
        assert_eq!(parse_i32(s), s.parse::<i32>().ok(), "{:?}", s);
    }
}

#[test]
fn texts_compare_by_characters() {
    assert!(same_text("--max", "--max"));
    assert!(!same_text("--max", "--max-prime"));
    assert!(!same_text("ab", "ba"));
    assert!(same_text("", ""));
    assert!(same_text("größe", "größe"));
}

#[test]
fn outline_vertex_numbers_are_decimal() {
    let long = GeometryExporter::obj_polyline(1001);
    assert!(long.starts_with("l 1 2\nl 2 3\n"));
    assert!(long.contains("\nl 99 100\nl 100 101\n"));
    assert!(long.ends_with("l 999 1000\nl 1000 1001\n"));
    assert_eq!(long.lines().count(), 1000);
}

#[test]
fn obj_outline_joins_consecutive_vertices() {
    assert_eq!(GeometryExporter::obj_polyline(0), "");
    assert_eq!(GeometryExporter::obj_polyline(1), "");
    assert_eq!(GeometryExporter::obj_polyline(2), "l 1 2\n");
    assert_eq!(GeometryExporter::obj_polyline(4), "l 1 2\nl 2 3\nl 3 4\n");
    let many = GeometryExporter::obj_polyline(12);
    assert!(many.ends_with("l 10 11\nl 11 12\n"));
    assert_eq!(many.lines().count(), 11);
}

#[test]
fn options_are_scanned_in_order_with_their_values() {
    let names = vec!["--length", "--segments", "--json"];
    let valued = vec![true, true, false];
    let found = scan_options(
        &args(&["cli", "simulate", "cone", "--length", "1200", "--json", "--segments", "40"]),
        2,
        &names,
        &valued,
    );
    assert_eq!(
        found,
        vec![
            (0, Some("1200".to_string())),
            (2, None),
            (1, Some("40".to_string())),
        ]
    );
}

#[test]
fn an_option_value_is_skipped_even_when_it_names_an_option() {
    let names = vec!["--geo", "--json"];
    let valued = vec![true, false];
    let found = scan_options(&args(&["cli", "waveguide", "--geo", "--json"]), 2, &names, &valued);
    assert_eq!(found, vec![(0, Some("--json".to_string()))]);
}

#[test]
fn a_value_option_at_the_end_has_no_value() {
    let names = vec!["--depth", "--open"];
    let valued = vec![true, false];
    let found = scan_options(&args(&["cli", "tonehole", "--open", "--depth"]), 2, &names, &valued);
    assert_eq!(found, vec![(1, None), (0, None)]);
    assert!(scan_options(&args(&["cli"]), 2, &names, &valued).is_empty());
    assert!(scan_options(&args(&["cli", "x", "y"]), 5, &names, &valued).is_empty());
}

#[test]
fn the_first_table_entry_of_a_name_decides() {
    let names = vec!["--json", "--json"];
    let valued = vec![false, true];
    let found = scan_options(&args(&["cli", "simulate", "--json", "7"]), 2, &names, &valued);
    assert_eq!(found, vec![(0, None)]);
}
