use crate::generator::{GeneratorOptions, DEFAULT_LENGTH};
use crate::presets::{pin, unix};
use vstd::prelude::*;
use vstd::string::*;

verus! {

/// What a command line asks for.
#[derive(Clone, Copy, Debug, PartialEq, Eq, Structural)]
pub enum CliCommand {
    /// Print the usage text.
    Help,
    /// Generate one password with these options.
    Generate(GeneratorOptions),
    /// A short flag names an unknown letter.
    InvalidOption(char),
    /// The argument at this position is not an option.
    UnrecognizedArgument(usize),
    /// `-n` stands last, with no length after it.
    MissingLength,
}

pub open spec fn is_digit(c: char) -> bool {
    48 <= (c as u32) <= 57
}

pub open spec fn digit_value(c: char) -> int {
    (c as u32) - 48
}

/// The number that the decimal digits `d` write.
pub open spec fn decimal_value(d: Seq<char>) -> int
    decreases d.len(),
{
    if d.len() == 0 {
        0
    } else {
        decimal_value(d.drop_last()) * 10 + digit_value(d.last())
    }
}

/// `s` without its leading `+`, if it has one.
pub open spec fn unsigned_digits(s: Seq<char>) -> Seq<char> {
    if s.len() > 0 && s[0] == '+' {
        s.drop_first()
    } else {
        s
    }
}

/// Whether every character of `d` is a decimal digit.
pub open spec fn all_digits(d: Seq<char>) -> bool {
    forall|k: int| 0 <= k < d.len() ==> is_digit(#[trigger] d[k])
}

/// `s` read as a `u8`: an optional `+`, then at least one decimal digit,
/// with a value of at most 255.
pub open spec fn parsed_u8(s: Seq<char>) -> Option<u8> {
    let d = unsigned_digits(s);
    if d.len() > 0 && all_digits(d) && decimal_value(d) <= 255 {
        Some(decimal_value(d) as u8)
    } else {
        None
    }
}

/// Reads `s` as a `u8`, as `parsed_u8` describes.
pub fn parse_u8(s: &str) -> (r: Option<u8>)
    ensures
        r == parsed_u8(s@),
{
    let n = s.unicode_len();
    let start: usize = if n > 0 && s.get_char(0) == '+' { 1 } else { 0 };
    let ghost d = unsigned_digits(s@);
    if start >= n {
        return None;
    }
    let mut value: u32 = 0;
    let mut too_big = false;
    let mut i: usize = start;
    while i < n
        invariant
            n == s@.len(),
            start <= i <= n,
            d == unsigned_digits(s@),
            d == s@.subrange(start as int, n as int),
            forall|k: int| start <= k < i ==> is_digit(#[trigger] s@[k]),
            !too_big ==> value as int == decimal_value(d.take(i - start)) && value <= 255,
            too_big ==> decimal_value(d.take(i - start)) > 255,
        decreases n - i,
    {
        let c = s.get_char(i);
        if !((c as u32) >= 48 && (c as u32) <= 57) {
            assert(d[i - start] == c);
            assert(!is_digit(d[i - start]));
            return None;
        }
        let ghost prefix = d.take(i - start);
        assert(d.take(i + 1 - start).drop_last() == prefix);
        assert(d.take(i + 1 - start).last() == c);
        if !too_big {
            let next = value * 10 + (c as u32 - 48);
            if next > 255 {
                too_big = true;
            } else {
                value = next;
            }
        }
        i = i + 1;
    }
    assert(d.take(n - start) == d);
    assert forall|k: int| 0 <= k < d.len() implies is_digit(#[trigger] d[k]) by {
        assert(d[k] == s@[k + start]);
    }
    if too_big {
        None
    } else {
        Some(value as u8)
    }
}

/// What a command line starts from: no class, the default length.
pub open spec fn initial_cli_options() -> GeneratorOptions {
    GeneratorOptions { upper_case: false, lower_case: false, digits: false, symbols: false, length: DEFAULT_LENGTH }
}

/// The options after the flag letters of `a` from position `j` on, or the first unknown letter.
pub open spec fn apply_flags(a: Seq<char>, j: int, o: GeneratorOptions) -> Result<GeneratorOptions, char>
    decreases a.len() - j,
{
    if j < 0 || j >= a.len() {
        Ok(o)
    } else if a[j] == 'u' {
        apply_flags(a, j + 1, GeneratorOptions { upper_case: true, ..o })
    } else if a[j] == 'l' {
        apply_flags(a, j + 1, GeneratorOptions { lower_case: true, ..o })
    } else if a[j] == 'd' {
        apply_flags(a, j + 1, GeneratorOptions { digits: true, ..o })
    } else if a[j] == 's' {
        apply_flags(a, j + 1, GeneratorOptions { symbols: true, ..o })
    } else {
        Err(a[j])
    }
}

/// What the arguments from position `i` on ask for, from options `o`.
/// `--help` asks for the usage text at once; `--unix` and `--pin` end the
/// reading with their preset; `-n` takes the next argument as the length,
/// with the default where it is no `u8`; any other argument that starts with
/// `-` holds flag letters.
pub open spec fn cli_outcome(args: Seq<Seq<char>>, i: int, o: GeneratorOptions) -> CliCommand
    decreases args.len() - i,
{
    if i < 0 || i >= args.len() {
        CliCommand::Generate(o)
    } else if args[i] == seq!['-', '-', 'h', 'e', 'l', 'p'] {
        CliCommand::Help
    } else if args[i] == seq!['-', '-', 'u', 'n', 'i', 'x'] {
        CliCommand::Generate(GeneratorOptions { upper_case: true, lower_case: true, digits: true, symbols: true, length: 8 })
    } else if args[i] == seq!['-', '-', 'p', 'i', 'n'] {
        CliCommand::Generate(GeneratorOptions { upper_case: false, lower_case: false, digits: true, symbols: false, length: 4 })
    } else if args[i] == seq!['-', 'n'] {
        if i + 1 < args.len() {
            let length = match parsed_u8(args[i + 1]) {
                Some(v) => v,
                None => DEFAULT_LENGTH,
            };
            cli_outcome(args, i + 2, GeneratorOptions { length, ..o })
        } else {
            CliCommand::MissingLength
        }
    } else if args[i].len() > 0 && args[i][0] == '-' {
        match apply_flags(args[i], 1, o) {
            Ok(next) => cli_outcome(args, i + 1, next),
            Err(ch) => CliCommand::InvalidOption(ch),
        }
    } else {
        CliCommand::UnrecognizedArgument(i as usize)
    }
}

/// The arguments as character sequences.
pub open spec fn arg_views(args: Seq<String>) -> Seq<Seq<char>> {
    args.map_values(|s: String| s@)
}

/// Returns whether `s` holds exactly the characters of `word`.
fn same_chars(s: &str, word: &Vec<char>) -> (r: bool)
    ensures
        r == (s@ == word@),
{
    let n = s.unicode_len();
    if n != word.len() {
        return false;
    }
    let mut i: usize = 0;
    while i < n
        invariant
            n == s@.len() == word@.len(),
            i <= n,
            forall|k: int| 0 <= k < i ==> s@[k] == word@[k],
        decreases n - i,
    {
        if s.get_char(i) != word[i] {
            return false;
        }
        i = i + 1;
    }
    assert(s@ =~= word@);
    true
}

/// Applies the flag letters of `arg` after its leading `-` to `options`.
fn read_flags(arg: &str, options: GeneratorOptions) -> (r: Result<GeneratorOptions, char>)
    ensures
        r == apply_flags(arg@, 1, options),
{
    let n = arg.unicode_len();
    let mut o = options;
    let mut j: usize = 1;
    while j < n
        invariant
            n == arg@.len(),
            1 <= j,
            apply_flags(arg@, 1, options) == apply_flags(arg@, j as int, o),
        decreases n - j,
    {
        let ch = arg.get_char(j);
        if ch == 'u' {
            o.upper_case = true;
        } else if ch == 'l' {
            o.lower_case = true;
        } else if ch == 'd' {
            o.digits = true;
        } else if ch == 's' {
            o.symbols = true;
        } else {
            return Err(ch);
        }
        j = j + 1;
    }
    Ok(o)
}

/// Decides what the command-line arguments (the program name left out) ask for.
pub fn build_options(args: &Vec<String>) -> (r: CliCommand)
    ensures
        r == cli_outcome(arg_views(args@), 0, initial_cli_options()),
{
    let help: Vec<char> = vec!['-', '-', 'h', 'e', 'l', 'p'];
    let unix_flag: Vec<char> = vec!['-', '-', 'u', 'n', 'i', 'x'];
    let pin_flag: Vec<char> = vec!['-', '-', 'p', 'i', 'n'];
    let length_flag: Vec<char> = vec!['-', 'n'];
    let ghost views = arg_views(args@);
    let mut o = GeneratorOptions {
        upper_case: false,
        lower_case: false,
        digits: false,
        symbols: false,
        length: DEFAULT_LENGTH,
    };
    let mut i: usize = 0;
    while i < args.len()
        invariant
            views == arg_views(args@),
            views.len() == args@.len(),
            i <= args@.len(),
            help@ == seq!['-', '-', 'h', 'e', 'l', 'p'],
            unix_flag@ == seq!['-', '-', 'u', 'n', 'i', 'x'],
            pin_flag@ == seq!['-', '-', 'p', 'i', 'n'],
            length_flag@ == seq!['-', 'n'],
            cli_outcome(views, 0, initial_cli_options()) == cli_outcome(views, i as int, o),
        decreases args@.len() - i,
    {
        let arg = args[i].as_str();
        assert(views[i as int] == arg@);
        if same_chars(arg, &help) {
            return CliCommand::Help;
        } else if same_chars(arg, &unix_flag) {
            return CliCommand::Generate(unix());
        } else if same_chars(arg, &pin_flag) {
            return CliCommand::Generate(pin());
        } else if same_chars(arg, &length_flag) {
            if i + 1 < args.len() {
                assert(views[i + 1] == args@[i + 1]@);
                let length = match parse_u8(args[i + 1].as_str()) {
                    Some(v) => v,
                    None => DEFAULT_LENGTH,
                };
                o.length = length;
                i = i + 2;
            } else {
                return CliCommand::MissingLength;
            }
        } else if arg.unicode_len() > 0 && arg.get_char(0) == '-' {
            match read_flags(arg, o) {
                Ok(next) => {
                    o = next;
                    i = i + 1;
                },
                Err(ch) => {
                    return CliCommand::InvalidOption(ch);
                },
            }
        } else {
            return CliCommand::UnrecognizedArgument(i);
        }
    }
    CliCommand::Generate(o)
}

} // verus!
