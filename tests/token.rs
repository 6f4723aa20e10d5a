use tbx::alpha_num::AlphaNumTokenizer;
use tbx::naming::Naming;
use tbx::token::{AsciiMatcher, AsciiTokenizer};

#[test]
fn ascii_test_tokenize_alpha_num() {
    assert_eq!(vec!["Powered", "by", "Rust", "Lang", "version1", "65", "0"],
               AsciiTokenizer::tokenize_ascii_alpha_num("  Powered by RustLang version1.65.0"));
    assert_eq!(vec!["X", "XX", "XXx", "XXxx", "X1", "XX1", "Xx1", "Xxx1"],
               AsciiTokenizer::tokenize_ascii_alpha_num("  X XX XXx XXxx X1 XX1 Xx1 Xxx1"));
    assert_eq!(vec!["X", "XX", "XXx", "XXxx", "X1", "XX1", "Xx1", "XXX"],
               AsciiTokenizer::tokenize_ascii_alpha_num("  X XX XXx XXxx X1 XX1 Xx1 XXX"));
    assert_eq!(vec!["x", "xx", "xx1", "xx11"],
               AsciiTokenizer::tokenize_ascii_alpha_num("  x xx xx1 xx11"));
    assert_eq!(vec!["1", "12", "123"],
               AsciiTokenizer::tokenize_ascii_alpha_num("  1 12 123"));
    assert_eq!(vec!["Ver1", "b"],
               AsciiTokenizer::tokenize_ascii_alpha_num("Ver1b"));
    assert_eq!(vec!["RAMEN123", "123", "RAMEN"],
               AsciiTokenizer::tokenize_ascii_alpha_num(" RAMEN123 123RAMEN"));

    // full-width alpha-num will be eliminated
    assert_eq!(vec!["Somen"],
               AsciiTokenizer::tokenize_ascii_alpha_num("  Somen ＲＡＭＥＮ１２３　１２３ＵＤＯＮ"));
    assert_eq!(vec!["789"],
               AsciiTokenizer::tokenize_ascii_alpha_num("  789 １   １２　１２３"));
}

#[test]
fn alpha_num_test_tokenize_alpha_num() {
    assert_eq!(vec!["Powered", "by", "Rust", "Lang", "version1", "65", "0"],
               AlphaNumTokenizer::tokenize_ascii_alpha_num("  Powered by RustLang version1.65.0"));
    assert_eq!(vec!["X", "XX", "XXx", "XXxx", "X1", "XX1", "Xx1", "Xxx1"],
               AlphaNumTokenizer::tokenize_ascii_alpha_num("  X XX XXx XXxx X1 XX1 Xx1 Xxx1"));
    assert_eq!(vec!["X", "XX", "XXx", "XXxx", "X1", "XX1", "Xx1", "XXX"],
               AlphaNumTokenizer::tokenize_ascii_alpha_num("  X XX XXx XXxx X1 XX1 Xx1 XXX"));
    assert_eq!(vec!["x", "xx", "xx1", "xx11"],
               AlphaNumTokenizer::tokenize_ascii_alpha_num("  x xx xx1 xx11"));
    assert_eq!(vec!["1", "12", "123"],
               AlphaNumTokenizer::tokenize_ascii_alpha_num("  1 12 123"));
    assert_eq!(vec!["Ver1", "b"],
               AlphaNumTokenizer::tokenize_ascii_alpha_num("Ver1b"));
    assert_eq!(vec!["RAMEN123", "123", "RAMEN"],
               AlphaNumTokenizer::tokenize_ascii_alpha_num(" RAMEN123 123RAMEN"));
    assert_eq!(vec!["Somen"],
               AlphaNumTokenizer::tokenize_ascii_alpha_num("  Somen ＲＡＭＥＮ１２３　１２３ＵＤＯＮ"));
    assert_eq!(vec!["789"],
               AlphaNumTokenizer::tokenize_ascii_alpha_num("  789 １   １２　１２３"));
}

#[test]
fn test_tokenize_ascii_alpha_num_to_capital() {
    assert_eq!(vec!["POWERED", "BY", "RUST", "LANG", "VERSION1", "65", "0"],
               "  Powered by RustLang version1.65.0".tokenize_ascii_alpha_num_to_capital());
}

#[test]
fn test_tokenize_ascii_alpha_num_to_first_upper() {
    assert_eq!(vec!["Powered", "By", "Rust", "Lang", "Version1", "65", "0"],
               "  Powered by RustLang version1.65.0".tokenize_ascii_alpha_num_to_first_upper());
}

#[test]
fn test_tokenize_ascii_alpha_num_to_lower() {
    assert_eq!(vec!["powered", "by", "rust", "lang", "version1", "65", "0"],
               "  Powered by RustLang version1.65.0".tokenize_ascii_alpha_num_to_lower());
}

#[test]
fn test_is_ascii_numeric() {
    assert!(AsciiMatcher::is_ascii_numeric("1234"));
    assert!(AsciiMatcher::is_ascii_numeric("0"));
    assert!(!AsciiMatcher::is_ascii_numeric("abc"));
    assert!(!AsciiMatcher::is_ascii_numeric("abc123"));
    assert!(!AsciiMatcher::is_ascii_numeric("１２３"));
}

#[test]
fn test_is_ascii_alphabetic() {
    assert!(AsciiMatcher::is_ascii_alphabetic("abc"));
    assert!(AsciiMatcher::is_ascii_alphabetic("ABC"));
    assert!(AsciiMatcher::is_ascii_alphabetic("Abc"));
    assert!(AsciiMatcher::is_ascii_alphabetic("aBC"));
    assert!(AsciiMatcher::is_ascii_alphabetic("a"));
    assert!(!AsciiMatcher::is_ascii_alphabetic("a123"));
    assert!(!AsciiMatcher::is_ascii_alphabetic("123"));
}

#[test]
fn test_is_ascii_alphanumeric() {
    assert!(AsciiMatcher::is_ascii_alphanumeric("abc"));
    assert!(AsciiMatcher::is_ascii_alphanumeric("ABC"));
    assert!(AsciiMatcher::is_ascii_alphanumeric("Abc"));
    assert!(AsciiMatcher::is_ascii_alphanumeric("aBC"));
    assert!(AsciiMatcher::is_ascii_alphanumeric("a"));
    assert!(AsciiMatcher::is_ascii_alphanumeric("a123"));
    assert!(AsciiMatcher::is_ascii_alphanumeric("123"));
    assert!(!AsciiMatcher::is_ascii_alphanumeric("１２３"));
    assert!(!AsciiMatcher::is_ascii_alphanumeric("エービーシー"));
}

#[test]
fn tokens_of_empty_and_separators() {
    assert!(AsciiTokenizer::tokenize_ascii_alpha_num("").is_empty());
    assert!(AsciiTokenizer::tokenize_ascii_alpha_num(" -=* ").is_empty());
    assert!(AsciiMatcher::is_ascii_numeric(""));
}

#[test]
fn test_to_ascii_camel_upper() {
    assert_eq!("CamelCase", "camel Case".to_ascii_camel_upper());
    assert_eq!("CamelCase", "CAMEL-case".to_ascii_camel_upper());
    assert_eq!("CamelCase", "-CAMEL-CASE-".to_ascii_camel_upper());
    assert_eq!("CamelCase", "=camel=case=".to_ascii_camel_upper());
    assert_eq!("", "*".to_ascii_camel_upper());
    assert_eq!("C", "c".to_ascii_camel_upper());
    assert_eq!("Camel", "  camel".to_ascii_camel_upper());
    assert_eq!("C3P0", " c***3***p***0".to_ascii_camel_upper());
}

#[test]
fn test_to_ascii_camel_lower() {
    assert_eq!("camelCase", "camel Case".to_ascii_camel_lower());
    assert_eq!("camelCase", "CAMEL-case".to_ascii_camel_lower());
    assert_eq!("camelCase", "-CAMEL-CASE-".to_ascii_camel_lower());
    assert_eq!("camelCase", "=camel=case=".to_ascii_camel_lower());
    assert_eq!("", "*".to_ascii_camel_lower());
    assert_eq!("c", "c".to_ascii_camel_lower());
    assert_eq!("camel", "  camel".to_ascii_camel_lower());
    assert_eq!("c3P0", " c***3***p***0".to_ascii_camel_lower());
}

#[test]
fn test_to_ascii_kebab_capital() {
    assert_eq!("KEBAB-CAPITAL", "kebab Capital".to_ascii_kebab_capital());
    assert_eq!("KEBAB-CAPITAL", "KEBAB-capital".to_ascii_kebab_capital());
    assert_eq!("KEBAB-CAPITAL", "-KEBAB-Capital-".to_ascii_kebab_capital());
    assert_eq!("KEBAB-CAPITAL", "=kebab=capital=".to_ascii_kebab_capital());
}

#[test]
fn test_to_ascii_kebab_upper() {
    assert_eq!("Kebab-Upper", "kebab upper".to_ascii_kebab_upper());
    assert_eq!("Kebab-Upper", "KEBAB-upper".to_ascii_kebab_upper());
    assert_eq!("Kebab-Upper", "-KEBAB-Upper-".to_ascii_kebab_upper());
    assert_eq!("Kebab-Upper", "=kebab=upper=".to_ascii_kebab_upper());
}

#[test]
fn test_to_ascii_kebab_lower() {
    assert_eq!("kebab-lower", "kebab lower".to_ascii_kebab_lower());
    assert_eq!("kebab-lower", "KEBAB lower".to_ascii_kebab_lower());
    assert_eq!("kebab-lower", "-KEBAB-Lower-".to_ascii_kebab_lower());
    assert_eq!("kebab-lower", "=kebab=LOWER=".to_ascii_kebab_lower());
}

#[test]
fn test_to_ascii_snake_capital() {
    assert_eq!("SNAKE_CAPITAL", "snake capital".to_ascii_snake_capital());
    assert_eq!("SNAKE_CAPITAL", "SNAKE Capital".to_ascii_snake_capital());
    assert_eq!("SNAKE_CAPITAL", "-Snake-CAPITAL-".to_ascii_snake_capital());
    assert_eq!("SNAKE_CAPITAL", "=snake=Capital=".to_ascii_snake_capital());
}

#[test]
fn test_to_ascii_snake_upper() {
    assert_eq!("Snake_Upper", "snake upper".to_ascii_snake_upper());
    assert_eq!("Snake_Upper", "SNAKE Upper".to_ascii_snake_upper());
    assert_eq!("Snake_Upper", "-Snake-UPPER-".to_ascii_snake_upper());
    assert_eq!("Snake_Upper", "=snake=Upper=".to_ascii_snake_upper());
}

#[test]
fn test_to_ascii_snake_lower() {
    assert_eq!("snake_lower", "snake lower".to_ascii_snake_lower());
    assert_eq!("snake_lower", "SNAKE LOWER".to_ascii_snake_lower());
    assert_eq!("snake_lower", "-Snake-Lower-".to_ascii_snake_lower());
    assert_eq!("snake_lower", "=snake=Lower=".to_ascii_snake_lower());
}
