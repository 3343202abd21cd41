//! The table lifecycle and the menu-result precedence.

use rofi_plugin_abi::mode::mode_destroy;
use rofi_plugin_abi::mode::mode_get_completion;
use rofi_plugin_abi::mode::mode_get_display_value;
use rofi_plugin_abi::mode::mode_get_icon;
use rofi_plugin_abi::mode::mode_get_message;
use rofi_plugin_abi::mode::mode_get_num_entries;
use rofi_plugin_abi::mode::mode_get_display_name;
use rofi_plugin_abi::mode::mode_get_name;
use rofi_plugin_abi::mode::mode_get_private_data;
use rofi_plugin_abi::mode::load_mode;
use rofi_plugin_abi::mode::mode_init;
use rofi_plugin_abi::mode::mode_preprocess_input;
use rofi_plugin_abi::mode::mode_result;
use rofi_plugin_abi::mode::mode_token_match;
use rofi_plugin_abi::mode::menu_result_next_action;
use rofi_plugin_abi::mode::EXIT;
use rofi_plugin_abi::mode::NEXT_DIALOG;
use rofi_plugin_abi::mode::PREVIOUS_DIALOG;
use rofi_plugin_abi::mode::RELOAD_DIALOG;
use rofi_plugin_abi::mode::MENU_CANCEL;
use rofi_plugin_abi::mode::MENU_CUSTOM_INPUT;
use rofi_plugin_abi::mode::MENU_ENTRY_DELETE;
use rofi_plugin_abi::mode::MENU_NEXT;
use rofi_plugin_abi::mode::MENU_OK;
use rofi_plugin_abi::mode::MENU_PREVIOUS;
use rofi_plugin_abi::mode::MENU_QUICK_SWITCH;
use rofi_plugin_abi::mode_private::cfg_name_key_buffer;
use rofi_plugin_abi::mode_private::Mode;
use rofi_plugin_abi::mode_private::ModeCapabilities;
use rofi_plugin_abi::mode_private::ModeExtension;
use rofi_plugin_abi::mode_private::ModeType;
use rofi_plugin_abi::mode_private::ABI_VERSION_BASELINE;
use rofi_plugin_abi::mode_private::ABI_VERSION_EXTENDED;
use rofi_plugin_abi::mode_private::CFG_NAME_KEY_SIZE;
use rofi_plugin_abi::helper::tokenize;
use rofi_plugin_abi::static_mode::StaticMode;

fn demo_caps() -> ModeCapabilities {
    let mut caps = ModeCapabilities::none();
    caps.has_init = true;
    caps.has_destroy = true;
    caps.has_get_num_entries = true;
    caps.has_get_display_value = true;
    caps.has_result = true;
    caps.has_token_match = true;
    caps
}

fn demo_table() -> Mode<StaticMode> {
    let key = cfg_name_key_buffer(&b"display-demo".to_vec());
    Mode::new_baseline(String::from("demo"), key, None, demo_caps(), None)
}

#[test]
fn result_precedence_next_wins() {
    assert_eq!(
        menu_result_next_action(MENU_NEXT | MENU_PREVIOUS | MENU_QUICK_SWITCH | MENU_OK | 7),
        NEXT_DIALOG
    );
    assert_eq!(menu_result_next_action(MENU_NEXT), NEXT_DIALOG);
}

#[test]
fn result_precedence_previous_then_quick_switch() {
    assert_eq!(
        menu_result_next_action(MENU_PREVIOUS | MENU_QUICK_SWITCH | MENU_OK),
        PREVIOUS_DIALOG
    );
    assert_eq!(menu_result_next_action(MENU_QUICK_SWITCH | MENU_OK | 5), 5);
    assert_eq!(menu_result_next_action(MENU_QUICK_SWITCH | 0xFFF), 0xFFF);
}

#[test]
fn result_precedence_accept_delete_exit() {
    assert_eq!(menu_result_next_action(MENU_OK), RELOAD_DIALOG);
    assert_eq!(menu_result_next_action(MENU_ENTRY_DELETE), RELOAD_DIALOG);
    assert_eq!(menu_result_next_action(MENU_CANCEL), EXIT);
    assert_eq!(menu_result_next_action(MENU_CUSTOM_INPUT), EXIT);
    assert_eq!(menu_result_next_action(0), EXIT);
}

fn entries_of(data: &Option<StaticMode>) -> Vec<String> {
    match data {
        Some(m) => m.entries.clone(),
        None => Vec::new(),
    }
}

#[test]
fn init_is_idempotent_on_installed_data() {
    let mut table = demo_table();
    assert!(mode_init(&mut table));
    assert!(table.private_data.is_some());
    let before = entries_of(&table.private_data);
    assert!(mode_init(&mut table));
    let after = entries_of(&table.private_data);
    assert_eq!(before, after);
    assert_eq!(before, vec![String::from("foo"), String::from("bar")]);
    assert_eq!(mode_get_num_entries(&table), 2);
}

#[test]
fn destroy_on_fresh_table_is_noop() {
    let mut table = demo_table();
    assert!(table.private_data.is_none());
    mode_destroy(&mut table);
    assert!(table.private_data.is_none());
    assert_eq!(table.abi_version, ABI_VERSION_BASELINE);
    // the table is still ready for a fresh init
    assert!(mode_init(&mut table));
    assert!(table.private_data.is_some());
    mode_destroy(&mut table);
    assert!(table.private_data.is_none());
}

#[test]
fn minimal_table_scenario() {
    let mut table = demo_table();
    assert!(mode_init(&mut table));
    assert_eq!(mode_get_num_entries(&table), 2);
    let (state, entry) = mode_get_display_value(&table, 0, true);
    assert_eq!(state, 0);
    assert_eq!(entry.as_deref(), Some("foo"));
    let (state1, entry1) = mode_get_display_value(&table, 1, true);
    assert_eq!(state1, 0);
    assert_eq!(entry1.as_deref(), Some("bar"));
    let (_, none_entry) = mode_get_display_value(&table, 0, false);
    assert!(none_entry.is_none());
    // unsupported capabilities answer with the unsupported result
    assert!(mode_get_icon(&table, 0, 32).is_none());
    assert!(mode_get_completion(&table, 0).is_none());
    assert!(mode_get_message(&table).is_none());
    assert_eq!(mode_preprocess_input(&table, "In*Put"), String::from("In*Put"));
    assert_eq!(mode_get_name(&table), "demo");
}

#[test]
fn token_match_through_the_table() {
    let mut table = demo_table();
    assert!(mode_init(&mut table));
    let tokens = tokenize(&"fo".chars().collect(), false);
    assert!(mode_token_match(&table, &tokens, 0));
    assert!(!mode_token_match(&table, &tokens, 1));
}

#[test]
fn result_through_the_table() {
    let mut table = demo_table();
    assert!(mode_init(&mut table));
    let (action, input) = mode_result(&mut table, MENU_OK, String::from("typed"), 0);
    assert_eq!(action, RELOAD_DIALOG);
    assert_eq!(input, "typed");
    assert!(table.private_data.is_some());
}

#[test]
fn abi_validation_is_exact() {
    let table = demo_table();
    assert!(table.validate_abi(ABI_VERSION_BASELINE));
    assert!(!table.validate_abi(ABI_VERSION_EXTENDED));

    let key = cfg_name_key_buffer(&b"display-demo".to_vec());
    let ext = ModeExtension {
        mode_type: ModeType::unset(),
        has_create: false,
        has_completer_result: false,
        fallback_icon_fetch_uid: 0,
        fallback_icon_not_found: 0,
    };
    let extended: Mode<StaticMode> =
        Mode::new_extended(String::from("demo"), key, None, demo_caps(), None, ext);
    assert!(extended.validate_abi(ABI_VERSION_EXTENDED));
    assert!(!extended.validate_abi(ABI_VERSION_BASELINE));
    assert!(extended.ext.is_some());
}

#[test]
fn cfg_key_buffer_is_exactly_sized_and_padded() {
    let key = cfg_name_key_buffer(&b"display-demo".to_vec());
    assert_eq!(key.len(), CFG_NAME_KEY_SIZE);
    assert_eq!(&key[..12], b"display-demo");
    assert!(key[12..].iter().all(|&b| b == 0));
}

#[test]
fn metadata_getters_and_default_table() {
    let mut table = demo_table();
    assert!(mode_get_display_name(&table).is_none());
    assert!(mode_get_private_data(&table).is_none());
    assert!(mode_init(&mut table));
    assert!(mode_get_private_data(&table).is_some());

    let empty: Mode<StaticMode> = Mode::default();
    assert_eq!(empty.abi_version, ABI_VERSION_BASELINE);
    assert!(empty.name.is_empty());
    assert_eq!(empty.cfg_name_key.len(), CFG_NAME_KEY_SIZE);
    assert!(empty.cfg_name_key.iter().all(|&b| b == 0));
    assert!(!empty.caps.has_init);
    assert!(empty.private_data.is_none());
}

#[test]
fn load_rejects_a_version_mismatch() {
    let mut table = demo_table();
    // an extended-ABI host must refuse a baseline table outright
    assert!(!load_mode(&mut table, ABI_VERSION_EXTENDED));
    assert!(table.private_data.is_none());
    // the right host loads and initialises it
    assert!(load_mode(&mut table, ABI_VERSION_BASELINE));
    assert!(table.private_data.is_some());
}
