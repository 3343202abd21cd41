//! The text services: matching, scoring, parsing and formatting.

use rofi_plugin_abi::helper::FUZZY_MIN_SCORE;
use rofi_plugin_abi::helper::find_arg;
use rofi_plugin_abi::helper::find_arg_char;
use rofi_plugin_abi::helper::find_arg_int;
use rofi_plugin_abi::helper::find_arg_str;
use rofi_plugin_abi::helper::find_arg_strv;
use rofi_plugin_abi::helper::find_arg_uint;
use rofi_plugin_abi::helper::format_result_line;
use rofi_plugin_abi::helper::levenshtein;
use rofi_plugin_abi::helper::parse_char;
use rofi_plugin_abi::helper::parse_i32_chars;
use rofi_plugin_abi::helper::parse_u32_chars;
use rofi_plugin_abi::helper::scorer_fuzzy_evaluate;
use rofi_plugin_abi::helper::seq_contains;
use rofi_plugin_abi::helper::token_match;
use rofi_plugin_abi::helper::tokenize;

fn chars(s: &str) -> Vec<char> {
    s.chars().collect()
}

fn text(v: &[char]) -> String {
    v.iter().collect()
}

#[test]
fn str_to_chars_round_trip() {
    let c = rofi_plugin_abi::helper::str_to_chars("héllo");
    assert_eq!(text(&c), "héllo");
    assert!(rofi_plugin_abi::helper::str_to_chars("").is_empty());
}

#[test]
fn lowering_folds_ascii_only() {
    let folded = rofi_plugin_abi::helper::lower_chars(&chars("AbC-Ü9"));
    assert_eq!(text(&folded), "abc-Ü9");
}

#[test]
fn substring_search() {
    assert!(seq_contains(&chars("hello world"), &chars("lo w")));
    assert!(seq_contains(&chars("abc"), &chars("")));
    assert!(!seq_contains(&chars("abc"), &chars("abcd")));
    assert!(!seq_contains(&chars("abc"), &chars("ac")));
}

#[test]
fn tokenize_splits_words_and_folds_case() {
    let tokens = rofi_plugin_abi::helper::tokenize(&chars("  Foo  -Bar baz "), false);
    assert_eq!(tokens.len(), 3);
    assert_eq!(text(&tokens[0].pattern), "foo");
    assert!(!tokens[0].invert);
    assert_eq!(text(&tokens[1].pattern), "bar");
    assert!(tokens[1].invert);
    assert_eq!(text(&tokens[2].pattern), "baz");
    assert!(tokens.iter().all(|t| !t.case_sensitive));
}

#[test]
fn tokenize_case_sensitive_keeps_case() {
    let tokens = rofi_plugin_abi::helper::tokenize(&chars("Foo"), true);
    assert_eq!(tokens.len(), 1);
    assert_eq!(text(&tokens[0].pattern), "Foo");
    assert!(tokens[0].case_sensitive);
}

#[test]
fn token_match_honours_case_and_negation() {
    let insensitive = tokenize(&chars("fo"), false);
    assert!(token_match(&insensitive, &chars("Foo")));
    let sensitive = tokenize(&chars("Fo"), true);
    assert!(!token_match(&sensitive, &chars("foo")));
    assert!(token_match(&sensitive, &chars("Foo")));
    let negated = tokenize(&chars("-foo"), false);
    assert!(!token_match(&negated, &chars("Foo bar")));
    assert!(token_match(&negated, &chars("bar")));
}

#[test]
fn fuzzy_word_start_ranks_higher() {
    let pattern = chars("ab");
    let aligned = scorer_fuzzy_evaluate(&pattern, &chars("axby"));
    let scattered = scorer_fuzzy_evaluate(&pattern, &chars("ba x y"));
    assert!(aligned > scattered);
}

#[test]
fn fuzzy_prefers_early_and_consecutive_matches() {
    let pattern = chars("ab");
    let exact = scorer_fuzzy_evaluate(&pattern, &chars("ab"));
    let gapped = scorer_fuzzy_evaluate(&pattern, &chars("axxb"));
    assert!(exact > gapped);
    let early = scorer_fuzzy_evaluate(&chars("a"), &chars("xa"));
    let late = scorer_fuzzy_evaluate(&chars("a"), &chars("xxxa"));
    assert!(early > late);
}

#[test]
fn fuzzy_degenerate_inputs() {
    assert_eq!(scorer_fuzzy_evaluate(&chars(""), &chars("abc")), 0);
    assert_eq!(scorer_fuzzy_evaluate(&chars("abc"), &chars("ab")), FUZZY_MIN_SCORE);
    assert_eq!(scorer_fuzzy_evaluate(&chars("a"), &chars("")), FUZZY_MIN_SCORE);
}

#[test]
fn levenshtein_distances() {
    assert_eq!(levenshtein(&chars("kitten"), &chars("sitting")), 3);
    assert_eq!(levenshtein(&chars(""), &chars("abc")), 3);
    assert_eq!(levenshtein(&chars("abc"), &chars("")), 3);
    assert_eq!(levenshtein(&chars("same"), &chars("same")), 0);
    assert_eq!(levenshtein(&chars("flaw"), &chars("lawn")), 2);
}

#[test]
fn find_arg_family() {
    let args: Vec<String> = ["rofi", "-size", "32", "-offset", "-7", "-sep", "\\n", "-flag"]
        .iter()
        .map(|s| s.to_string())
        .collect();
    assert_eq!(find_arg(&args, &String::from("-size")), Some(1));
    assert_eq!(find_arg(&args, &String::from("-missing")), None);
    assert_eq!(find_arg_str(&args, &String::from("-size")).as_deref(), Some("32"));
    assert_eq!(find_arg_str(&args, &String::from("-flag")), None);
    assert_eq!(find_arg_uint(&args, &String::from("-size")), Some(32));
    assert_eq!(find_arg_uint(&args, &String::from("-offset")), None);
    assert_eq!(find_arg_int(&args, &String::from("-offset")), Some(-7));
    assert_eq!(find_arg_char(&args, &String::from("-sep")), Some('\n'));
    assert_eq!(find_arg_char(&args, &String::from("-size")), None);
}

#[test]
fn unsigned_parsing_bounds() {
    assert_eq!(parse_u32_chars(&chars("0")), Some(0));
    assert_eq!(parse_u32_chars(&chars("123")), Some(123));
    assert_eq!(parse_u32_chars(&chars("4294967295")), Some(u32::MAX));
    assert_eq!(parse_u32_chars(&chars("4294967296")), None);
    assert_eq!(parse_u32_chars(&chars("99999999999999999999")), None);
    assert_eq!(parse_u32_chars(&chars("12a")), None);
    assert_eq!(parse_u32_chars(&chars("")), None);
    assert_eq!(parse_u32_chars(&chars("-1")), None);
}

#[test]
fn signed_parsing_bounds() {
    assert_eq!(parse_i32_chars(&chars("-5")), Some(-5));
    assert_eq!(parse_i32_chars(&chars("2147483647")), Some(i32::MAX));
    assert_eq!(parse_i32_chars(&chars("2147483648")), None);
    assert_eq!(parse_i32_chars(&chars("-2147483648")), Some(i32::MIN));
    assert_eq!(parse_i32_chars(&chars("-2147483649")), None);
    assert_eq!(parse_i32_chars(&chars("-")), None);
}

#[test]
fn char_parsing_with_escapes() {
    assert_eq!(parse_char(&chars("a")), Some('a'));
    assert_eq!(parse_char(&chars("\\n")), Some('\n'));
    assert_eq!(parse_char(&chars("\\t")), Some('\t'));
    assert_eq!(parse_char(&chars("\\0")), Some('\0'));
    assert_eq!(parse_char(&chars("\\\\")), Some('\\'));
    assert_eq!(parse_char(&chars("\\z")), None);
    assert_eq!(parse_char(&chars("ab")), None);
    assert_eq!(parse_char(&chars("")), None);
}

#[test]
fn format_line_specifiers() {
    let out = format_result_line(&chars("%i %d %s %q %f %F"), &chars("a'b"), 4, &chars("fil"));
    assert_eq!(text(&out), "4 5 a'b 'a'\\''b' fil 'fil'");
}

#[test]
fn format_line_unknown_and_trailing() {
    let out = format_result_line(&chars("a%zb%"), &chars("e"), 0, &chars("f"));
    assert_eq!(text(&out), "ab");
    let plain = format_result_line(&chars("plain"), &chars("e"), 9, &chars("f"));
    assert_eq!(text(&plain), "plain");
    let idx = format_result_line(&chars("%d"), &chars("e"), u32::MAX, &chars("f"));
    assert_eq!(text(&idx), "4294967296");
}

#[test]
fn fuzzy_camel_case_bonus() {
    let camel = scorer_fuzzy_evaluate(&chars("B"), &chars("aBc"));
    let plain = scorer_fuzzy_evaluate(&chars("B"), &chars("ABc"));
    assert!(camel > plain);
}

#[test]
fn levenshtein_is_character_wise() {
    assert_eq!(levenshtein(&chars("café"), &chars("cafe")), 1);
    assert_eq!(levenshtein(&chars("über"), &chars("uber")), 1);
}

#[test]
fn find_arg_strv_collects_every_value() {
    let args: Vec<String> = ["app", "-e", "one", "-e", "two", "-e"]
        .iter()
        .map(|s| s.to_string())
        .collect();
    let values = find_arg_strv(&args, &String::from("-e"));
    assert_eq!(values, vec![String::from("one"), String::from("two")]);
    assert!(find_arg_strv(&args, &String::from("-x")).is_empty());
}
