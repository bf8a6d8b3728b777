pub mod charset;
pub mod cli;
pub mod generator;
pub mod presets;

pub use cli::{build_options, parse_u8, CliCommand};
pub use charset::{check_character, class_chars, CharClass};
pub use generator::{
    check_password, generate, GenerateError, GeneratorOptions, DEFAULT_LENGTH, MIN_LENGTH,
};
