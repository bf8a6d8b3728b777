use password_generator::presets::{
    default_options, length_at, length_index, lengths, long, medium, pin, unix,
    DEFAULT_LENGTH_INDEX,
};
use password_generator::{build_options, parse_u8, CliCommand, GeneratorOptions, DEFAULT_LENGTH};

fn args(list: &[&str]) -> Vec<String> {
    list.iter().map(|s| s.to_string()).collect()
}

fn opts(upper: bool, lower: bool, digits: bool, symbols: bool, length: u8) -> GeneratorOptions {
    GeneratorOptions { upper_case: upper, lower_case: lower, digits, symbols, length }
}

#[test]
fn length_choices() {
    assert_eq!(lengths(), vec![4, 8, 16, 24, 32, 48]);
    assert_eq!(length_index(16), Some(2));
    assert_eq!(length_index(DEFAULT_LENGTH), Some(DEFAULT_LENGTH_INDEX));
    assert_eq!(length_index(4), Some(0));
    assert_eq!(length_index(48), Some(5));
    assert_eq!(length_index(5), None);
    assert_eq!(length_at(5), Some(48));
    assert_eq!(length_at(0), Some(4));
    assert_eq!(length_at(6), None);
}

#[test]
fn preset_options() {
    assert_eq!(default_options(), opts(true, true, true, false, 16));
    assert_eq!(medium(), opts(true, true, true, true, 16));
    assert_eq!(long(), opts(true, true, true, true, 32));
    assert_eq!(unix(), opts(true, true, true, true, 8));
    assert_eq!(pin(), opts(false, false, true, false, 4));
}

#[test]
fn parse_u8_reads_decimal() {
    assert_eq!(parse_u8("0"), Some(0));
    assert_eq!(parse_u8("255"), Some(255));
    assert_eq!(parse_u8("007"), Some(7));
    assert_eq!(parse_u8("+12"), Some(12));
    assert_eq!(parse_u8("256"), None);
    assert_eq!(parse_u8("1000"), None);
    assert_eq!(parse_u8(""), None);
    assert_eq!(parse_u8("+"), None);
    assert_eq!(parse_u8("-1"), None);
    assert_eq!(parse_u8("12a"), None);
    assert_eq!(parse_u8(" 1"), None);
}

#[test]
fn cli_without_arguments() {
    assert_eq!(build_options(&args(&[])), CliCommand::Generate(opts(false, false, false, false, 16)));
}

#[test]
fn cli_presets_end_reading() {
    assert_eq!(build_options(&args(&["--unix", "bogus"])), CliCommand::Generate(unix()));
    assert_eq!(build_options(&args(&["-s", "--pin", "-x"])), CliCommand::Generate(pin()));
    assert_eq!(build_options(&args(&["-u", "--help"])), CliCommand::Help);
}

#[test]
fn cli_flags_and_length() {
    assert_eq!(
        build_options(&args(&["-n", "8", "-ud"])),
        CliCommand::Generate(opts(true, false, true, false, 8))
    );
    assert_eq!(
        build_options(&args(&["-ls", "-n", "abc"])),
        CliCommand::Generate(opts(false, true, false, true, 16))
    );
    assert_eq!(
        build_options(&args(&["-n", "300", "-d"])),
        CliCommand::Generate(opts(false, false, true, false, 16))
    );
    assert_eq!(
        build_options(&args(&["-n", "3", "-u"])),
        CliCommand::Generate(opts(true, false, false, false, 3))
    );
}

#[test]
fn cli_errors() {
    assert_eq!(build_options(&args(&["-u", "-n"])), CliCommand::MissingLength);
    assert_eq!(build_options(&args(&["-ux"])), CliCommand::InvalidOption('x'));
    assert_eq!(build_options(&args(&["-d", "word"])), CliCommand::UnrecognizedArgument(1));
}
