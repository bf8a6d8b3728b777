use password_generator::{
    check_character, check_password, class_chars, generate, CharClass, GenerateError,
    GeneratorOptions,
};

fn options(upper: bool, lower: bool, digits: bool, symbols: bool, length: u8) -> GeneratorOptions {
    GeneratorOptions { upper_case: upper, lower_case: lower, digits, symbols, length }
}

fn all_combinations() -> Vec<(bool, bool, bool, bool)> {
    let mut v = Vec::new();
    for bits in 0u8..16 {
        v.push((bits & 1 != 0, bits & 2 != 0, bits & 4 != 0, bits & 8 != 0));
    }
    v
}

fn enabled_sets(o: &GeneratorOptions) -> Vec<Vec<char>> {
    let mut sets = Vec::new();
    if o.upper_case {
        sets.push(class_chars(CharClass::UpperCase));
    }
    if o.lower_case {
        sets.push(class_chars(CharClass::LowerCase));
    }
    if o.digits {
        sets.push(class_chars(CharClass::Digits));
    }
    if o.symbols {
        sets.push(class_chars(CharClass::Symbols));
    }
    sets
}

fn assert_valid(o: &GeneratorOptions, password: &str) {
    let chars: Vec<char> = password.chars().collect();
    assert_eq!(chars.len(), o.length as usize);
    let sets = enabled_sets(o);
    for ch in &chars {
        assert!(sets.iter().any(|s| s.contains(ch)), "{ch} is from no enabled class");
        assert!(*ch != 'I' && *ch != 'l' && *ch != 'O');
    }
    for s in &sets {
        assert!(chars.iter().any(|c| s.contains(c)), "a class is missing in {password}");
    }
}

#[test]
fn digits_only_length_four() {
    let o = options(false, false, true, false, 4);
    let password = generate(&o).unwrap();
    assert_eq!(password.chars().count(), 4);
    assert!(password.chars().all(|c| c.is_ascii_digit()));
}

#[test]
fn all_classes_length_eight() {
    let o = options(true, true, true, true, 8);
    let password = generate(&o).unwrap();
    assert_eq!(password.chars().count(), 8);
    assert!(password.chars().any(|c| c.is_ascii_uppercase() && c != 'I' && c != 'O'));
    assert!(password.chars().any(|c| c.is_ascii_lowercase() && c != 'l'));
    assert!(password.chars().any(|c| c.is_ascii_digit()));
    assert!(password.chars().any(|c| "@#$%&*()-+=^.,".contains(c)));
    assert_valid(&o, &password);
}

#[test]
fn upper_only_length_three_is_too_short() {
    let o = options(true, false, false, false, 3);
    assert_eq!(generate(&o), Err(GenerateError::LengthTooShort));
}

#[test]
fn no_class_length_sixteen_fails() {
    let o = options(false, false, false, false, 16);
    assert_eq!(generate(&o), Err(GenerateError::NoCharacterSetSelected));
}

#[test]
fn short_lengths_fail_for_every_selection() {
    for (u, l, d, s) in all_combinations() {
        for length in 0u8..4 {
            assert_eq!(generate(&options(u, l, d, s, length)), Err(GenerateError::LengthTooShort));
        }
    }
}

#[test]
fn no_class_fails_for_every_valid_length() {
    for length in 4u8..=255 {
        assert_eq!(
            generate(&options(false, false, false, false, length)),
            Err(GenerateError::NoCharacterSetSelected)
        );
    }
}

#[test]
fn every_selection_yields_valid_passwords() {
    for (u, l, d, s) in all_combinations() {
        if !(u || l || d || s) {
            continue;
        }
        for length in [4u8, 5, 8, 16, 32, 48, 255] {
            let o = options(u, l, d, s, length);
            for _ in 0..20 {
                let password = generate(&o).unwrap();
                assert_valid(&o, &password);
            }
        }
    }
}

#[test]
fn tight_length_covers_all_four_classes() {
    let o = options(true, true, true, true, 4);
    for _ in 0..200 {
        let password = generate(&o).unwrap();
        assert_valid(&o, &password);
    }
}

#[test]
fn upper_case_never_yields_excluded_letters() {
    let o = options(true, false, false, false, 255);
    for _ in 0..20 {
        let password = generate(&o).unwrap();
        assert!(!password.contains('I') && !password.contains('O'));
    }
    let o = options(false, true, false, false, 255);
    let password = generate(&o).unwrap();
    assert!(!password.contains('l'));
}

#[test]
fn repeated_calls_differ() {
    let o = options(true, true, true, true, 32);
    let a = generate(&o).unwrap();
    let b = generate(&o).unwrap();
    assert_ne!(a, b);
}

#[test]
fn check_character_excludes_ambiguous_letters() {
    assert!(!check_character('I'));
    assert!(!check_character('l'));
    assert!(!check_character('O'));
    assert!(check_character('A'));
    assert!(check_character('o'));
    assert!(check_character('1'));
    assert!(check_character('0'));
    assert!(check_character('@'));
}

#[test]
fn check_password_finds_shared_character() {
    let set = ['a', 'b'];
    assert!(check_password(&set, &String::from("xyzb")));
    assert!(!check_password(&set, &String::from("xyz")));
    assert!(!check_password(&set, &String::new()));
    assert!(!check_password(&[], &String::from("abc")));
}

#[test]
fn class_tables_are_fixed() {
    assert_eq!(class_chars(CharClass::UpperCase), ('A'..='Z').collect::<Vec<char>>());
    assert_eq!(class_chars(CharClass::LowerCase), ('a'..='z').collect::<Vec<char>>());
    assert_eq!(class_chars(CharClass::Digits), ('0'..='9').collect::<Vec<char>>());
    assert_eq!(class_chars(CharClass::Symbols), "@#$%&*()-+=^.,".chars().collect::<Vec<char>>());
}

#[test]
fn character_sets_follow_declaration_order() {
    let sets = options(true, false, true, true, 8).get_character_sets();
    assert_eq!(sets.len(), 3);
    assert_eq!(sets[0], class_chars(CharClass::UpperCase));
    assert_eq!(sets[1], class_chars(CharClass::Digits));
    assert_eq!(sets[2], class_chars(CharClass::Symbols));
    assert!(options(false, false, false, false, 8).get_character_sets().is_empty());
}

#[test]
fn error_messages() {
    assert_eq!(GenerateError::LengthTooShort.message(), "Password length must be >= 4");
    assert_eq!(
        GenerateError::NoCharacterSetSelected.message(),
        "At least one character set must be selected"
    );
}
