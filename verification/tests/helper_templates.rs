//! Template substitution, command parsing, ranges, paths and text
//! coercion.

use rofi_plugin_abi::helper::execute_context_with_defaults;
use rofi_plugin_abi::helper::expand_path;
use rofi_plugin_abi::types::RofiHelperExecuteContext;
use rofi_plugin_abi::helper::force_utf8;
use rofi_plugin_abi::helper::latin_to_utf8;
use rofi_plugin_abi::helper::parse_ranges;
use rofi_plugin_abi::helper::parse_setup;
use rofi_plugin_abi::helper::string_replace_if_exists;
use rofi_plugin_abi::helper::ConfigEntry;
use rofi_plugin_abi::helper::ReplacePair;
use rofi_plugin_abi::helper::ThemeConfig;
use rofi_plugin_abi::types::Property;
use rofi_plugin_abi::types::PropertyType;
use rofi_plugin_abi::types::PropertyValue;
use rofi_plugin_abi::types::RofiRangePair;

fn chars(s: &str) -> Vec<char> {
    s.chars().collect()
}

fn text(v: &[char]) -> String {
    v.iter().collect()
}

fn pair(key: &str, value: &str) -> ReplacePair {
    ReplacePair { key: chars(key), value: chars(value) }
}

#[test]
fn braced_keys_are_replaced_or_removed() {
    let pairs = vec![pair("cmd", "top")];
    let out = string_replace_if_exists(&chars("run {cmd} {missing} now"), &pairs);
    assert_eq!(text(&out), "run top  now");
}

#[test]
fn bracket_groups_are_optional() {
    let with_title = vec![pair("ssh-client", "ssh"), pair("cmd", "top"), pair("title", "X")];
    let out = string_replace_if_exists(&chars("{ssh-client} [-t {title}] -e {cmd}"), &with_title);
    assert_eq!(text(&out), "ssh -t X -e top");

    let without_title = vec![pair("ssh-client", "ssh"), pair("cmd", "top")];
    let dropped =
        string_replace_if_exists(&chars("{ssh-client} [-t {title}] -e {cmd}"), &without_title);
    assert_eq!(text(&dropped), "ssh  -e top");
}

#[test]
fn unclosed_braces_stay_literal() {
    let pairs = vec![pair("a", "1")];
    assert_eq!(text(&string_replace_if_exists(&chars("x{a"), &pairs)), "x{a");
    assert_eq!(text(&string_replace_if_exists(&chars("x[a"), &pairs)), "x[a");
    assert_eq!(text(&string_replace_if_exists(&chars("plain"), &pairs)), "plain");
}

#[test]
fn setup_splits_the_substituted_command() {
    let pairs = vec![pair("ssh-client", "ssh"), pair("cmd", "top")];
    let argv = parse_setup(&chars("{ssh-client} [-t {title}] -e {cmd}"), &pairs);
    let words: Vec<String> = argv.iter().map(|w| text(w)).collect();
    assert_eq!(words, vec!["ssh", "-e", "top"]);
}

#[test]
fn ranges_parse_fields_and_pairs() {
    let r = parse_ranges(&chars("1-3,5")).unwrap();
    assert_eq!(r, vec![RofiRangePair { start: 1, stop: 3 }, RofiRangePair { start: 5, stop: 5 }]);
    assert_eq!(parse_ranges(&chars("")), Some(vec![]));
    assert_eq!(parse_ranges(&chars(",,")), Some(vec![]));
    assert_eq!(
        parse_ranges(&chars("-2")),
        Some(vec![RofiRangePair { start: -2, stop: -2 }])
    );
    assert_eq!(parse_ranges(&chars("a")), None);
    assert_eq!(parse_ranges(&chars("1-")), None);
    assert_eq!(parse_ranges(&chars("1-3,x")), None);
}

#[test]
fn tilde_expansion() {
    let home = chars("/home/u");
    assert_eq!(text(&expand_path(&chars("~"), &home)), "/home/u");
    assert_eq!(text(&expand_path(&chars("~/notes"), &home)), "/home/u/notes");
    assert_eq!(text(&expand_path(&chars("/etc/~"), &home)), "/etc/~");
    assert_eq!(text(&expand_path(&chars("~user/x"), &home)), "~user/x");
}

#[test]
fn latin_transcoding_is_code_point_wise() {
    let out = latin_to_utf8(&vec![0x61, 0xE9, 0xFF]);
    assert_eq!(text(&out), "a\u{E9}\u{FF}");
    assert!(latin_to_utf8(&vec![]).is_empty());
}

#[test]
fn utf8_coercion_keeps_valid_text() {
    assert_eq!(text(&force_utf8(&vec![0x61, 0xC3, 0xA9])), "aé");
    assert_eq!(text(&force_utf8(&vec![0xE2, 0x82, 0xAC])), "€");
    assert_eq!(text(&force_utf8(&vec![0xF0, 0x9F, 0x92, 0xA1])), "💡");
    assert_eq!(text(&force_utf8(&vec![])), "");
}

#[test]
fn utf8_coercion_replaces_rejected_bytes() {
    assert_eq!(text(&force_utf8(&vec![0x61, 0xFF, 0x62])), "a\u{FFFD}b");
    // truncated two-byte encoding
    assert_eq!(text(&force_utf8(&vec![0xC3])), "\u{FFFD}");
    // overlong encoding of NUL
    assert_eq!(text(&force_utf8(&vec![0xC0, 0x80])), "\u{FFFD}\u{FFFD}");
    // encoded surrogate
    assert_eq!(
        text(&force_utf8(&vec![0xED, 0xA0, 0x80])),
        "\u{FFFD}\u{FFFD}\u{FFFD}"
    );
}

fn sample_theme() -> ThemeConfig {
    ThemeConfig {
        widgets: vec![
            ConfigEntry {
                name: String::from("window"),
                parent: None,
                properties: vec![
                    Property { name: String::from("width"), value: PropertyValue::Integer(100) },
                ],
            },
            ConfigEntry {
                name: String::from("element"),
                parent: Some(0),
                properties: vec![
                    Property { name: String::from("enabled"), value: PropertyValue::Boolean(true) },
                ],
            },
        ],
    }
}

#[test]
fn widget_lookup_by_name() {
    let theme = sample_theme();
    assert_eq!(theme.config_find_widget(&String::from("element")), Some(1));
    assert_eq!(theme.config_find_widget(&String::from("window")), Some(0));
    assert_eq!(theme.config_find_widget(&String::from("textbox")), None);
}

#[test]
fn property_lookup_exact_and_inherited() {
    let theme = sample_theme();
    let own = theme.theme_find_property(1, PropertyType::Boolean, &String::from("enabled"), true);
    assert!(matches!(own, Some(p) if matches!(p.value, PropertyValue::Boolean(true))));
    // not on the widget itself, but inherited from the parent
    let exact = theme.theme_find_property(1, PropertyType::Integer, &String::from("width"), true);
    assert!(exact.is_none());
    let inherited =
        theme.theme_find_property(1, PropertyType::Integer, &String::from("width"), false);
    assert!(matches!(inherited, Some(p) if matches!(p.value, PropertyValue::Integer(100))));
    // the type is part of the key
    let wrong_type =
        theme.theme_find_property(1, PropertyType::Text, &String::from("width"), false);
    assert!(wrong_type.is_none());
}

#[test]
fn execute_context_defaults_fill_absent_fields() {
    let ctx = RofiHelperExecuteContext {
        name: Some(String::from("Files")),
        binary: None,
        description: None,
        icon: None,
        app_id: None,
        wmclass: None,
        command: None,
    };
    let filled = execute_context_with_defaults(ctx, &chars("thunar /tmp"));
    assert_eq!(filled.name.as_deref(), Some("Files"));
    assert_eq!(filled.binary.as_deref(), Some("thunar"));
    assert_eq!(filled.command.as_deref(), Some("thunar /tmp"));
    assert!(filled.description.is_none());
}
