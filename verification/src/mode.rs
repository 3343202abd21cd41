//! Dispatch layer: the functions the host drives a plugin's table through.
//!
//! Every call goes through the table's capability set: a supported callback
//! is invoked on the private data, an unsupported one yields the documented
//! default without any invocation.  The lifecycle is the pair
//! [`mode_init`] / [`mode_destroy`]; every query requires the initialised
//! state, so an out-of-order call is a verification error rather than a
//! call through a null pointer.

use vstd::prelude::*;

use crate::mode_private::Mode;
use crate::mode_private::ModePlugin;
use crate::types::RofiIntMatcher;

verus! {

/// Exit the host process.
pub const EXIT: u32 = 1000;

/// Skip to the next cycle-able dialog.
pub const NEXT_DIALOG: u32 = 1001;

/// Reload the current dialog.
pub const RELOAD_DIALOG: u32 = 1002;

/// Go to the previous dialog.
pub const PREVIOUS_DIALOG: u32 = 1003;

/// Reload the dialog and clear the user input.
pub const RESET_DIALOG: u32 = 1004;

/// An entry was selected.
pub const MENU_OK: u32 = 0x00010000;

/// The user cancelled the operation.
pub const MENU_CANCEL: u32 = 0x00020000;

/// The user asked for a mode switch.
pub const MENU_NEXT: u32 = 0x00040000;

/// Custom (non-matched) input was entered.
pub const MENU_CUSTOM_INPUT: u32 = 0x00080000;

/// The user asked to delete an entry from the history.
pub const MENU_ENTRY_DELETE: u32 = 0x00100000;

/// The user asked to jump to another switcher.
pub const MENU_QUICK_SWITCH: u32 = 0x00200000;

/// Go to the previous menu.
pub const MENU_PREVIOUS: u32 = 0x00400000;

/// The user asked to jump to a custom command.
pub const MENU_CUSTOM_COMMAND: u32 = 0x00800000;

/// Go to the completion.
pub const MENU_COMPLETE: u32 = 0x01000000;

/// A binding-specific custom action.
pub const MENU_CUSTOM_ACTION: u32 = 0x10000000;

/// The low bits of a menu return value, carrying a target index.
pub const MENU_LOWER_MASK: u32 = 0x00000FFF;

/// The canonical next action for a menu return value.
///
/// The precedence is fixed: a requested mode switch wins over everything;
/// then going to the previous menu; then a quick switch, whose action is
/// the target index carried in the low bits; then an accepted or deleted
/// entry, which reloads the dialog; anything else exits.
pub open spec fn spec_menu_next_action(menu_retv: u32) -> u32 {
    if menu_retv & MENU_NEXT != 0 {
        NEXT_DIALOG
    } else if menu_retv & MENU_PREVIOUS != 0 {
        PREVIOUS_DIALOG
    } else if menu_retv & MENU_QUICK_SWITCH != 0 {
        menu_retv & MENU_LOWER_MASK
    } else if menu_retv & MENU_OK != 0 || menu_retv & MENU_ENTRY_DELETE == MENU_ENTRY_DELETE {
        RELOAD_DIALOG
    } else {
        EXIT
    }
}

/// The canonical next action for a menu return value; see
/// [`spec_menu_next_action`] for the precedence.
pub fn menu_result_next_action(menu_retv: u32) -> (r: u32)
    ensures
        r == spec_menu_next_action(menu_retv),
{
    if menu_retv & MENU_NEXT != 0 {
        NEXT_DIALOG
    } else if menu_retv & MENU_PREVIOUS != 0 {
        PREVIOUS_DIALOG
    } else if menu_retv & MENU_QUICK_SWITCH != 0 {
        menu_retv & MENU_LOWER_MASK
    } else if menu_retv & MENU_OK != 0 || menu_retv & MENU_ENTRY_DELETE == MENU_ENTRY_DELETE {
        RELOAD_DIALOG
    } else {
        EXIT
    }
}

/// The precedence of the menu-result bits, for every return value: a set
/// next-mode bit decides alone; else a set previous bit; else a set
/// quick-switch bit, whose action is the index in the low bits; else a set
/// accept bit or set entry-delete bits; else the exit action.
pub proof fn lemma_result_precedence(menu_retv: u32)
    ensures
        menu_retv & MENU_NEXT != 0 ==> spec_menu_next_action(menu_retv) == NEXT_DIALOG,
        menu_retv & MENU_NEXT == 0 && menu_retv & MENU_PREVIOUS != 0 ==> spec_menu_next_action(
            menu_retv,
        ) == PREVIOUS_DIALOG,
        menu_retv & MENU_NEXT == 0 && menu_retv & MENU_PREVIOUS == 0 && menu_retv
            & MENU_QUICK_SWITCH != 0 ==> spec_menu_next_action(menu_retv) == menu_retv
            & MENU_LOWER_MASK,
        menu_retv & MENU_NEXT == 0 && menu_retv & MENU_PREVIOUS == 0 && menu_retv
            & MENU_QUICK_SWITCH == 0 && (menu_retv & MENU_OK != 0 || menu_retv & MENU_ENTRY_DELETE
            == MENU_ENTRY_DELETE) ==> spec_menu_next_action(menu_retv) == RELOAD_DIALOG,
        menu_retv & MENU_NEXT == 0 && menu_retv & MENU_PREVIOUS == 0 && menu_retv
            & MENU_QUICK_SWITCH == 0 && menu_retv & MENU_OK == 0 && menu_retv & MENU_ENTRY_DELETE
            != MENU_ENTRY_DELETE ==> spec_menu_next_action(menu_retv) == EXIT,
{
}

/// Initialises a mode.
///
/// While private data is already installed the call is a no-op that reports
/// success: repeated `init` without an intervening `destroy` never builds
/// the data twice.  Otherwise the plugin builds its private data; on
/// failure the slot stays empty and the table is left exactly as it was.
pub fn mode_init<P: ModePlugin>(m: &mut Mode<P>) -> (r: bool)
    requires
        old(m).caps.has_init,
    ensures
        final(m).same_metadata(*old(m)),
        old(m).wf() ==> final(m).wf(),
        old(m).is_initialized() ==> r && *final(m) == *old(m),
        !old(m).is_initialized() ==> (r <==> final(m).is_initialized()),
        !old(m).is_initialized() && !r ==> *final(m) == *old(m),
{
    if m.private_data.is_some() {
        return true;
    }
    match P::init() {
        Some(data) => {
            m.private_data = Some(data);
            true
        },
        None => false,
    }
}

/// Drives the host's load of a published table: the ABI version is
/// validated first, and a mismatch is a hard rejection — the table is
/// left untouched and no callback is invoked.  Only a table with the
/// expected version tag is initialised.
pub fn load_mode<P: ModePlugin>(m: &mut Mode<P>, host_expected: u32) -> (r: bool)
    requires
        old(m).caps.has_init,
    ensures
        final(m).same_metadata(*old(m)),
        old(m).wf() ==> final(m).wf(),
        old(m).abi_version != host_expected ==> !r && *final(m) == *old(m),
        old(m).abi_version == host_expected && old(m).is_initialized()
            ==> r && *final(m) == *old(m),
        old(m).abi_version == host_expected && !old(m).is_initialized()
            ==> (r <==> final(m).is_initialized()),
        old(m).abi_version == host_expected && !old(m).is_initialized() && !r ==> *final(m)
            == *old(m),
{
    if !m.validate_abi(host_expected) {
        return false;
    }
    mode_init(m)
}

/// Destroys a mode: drops the private data and leaves the slot empty,
/// ready for a fresh `init`.
///
/// On a never-initialised table the call is a safe no-op: the slot was
/// already empty and the table is left exactly as it was.
pub fn mode_destroy<P: ModePlugin>(m: &mut Mode<P>)
    requires
        old(m).caps.has_destroy,
    ensures
        final(m).same_metadata(*old(m)),
        old(m).wf() ==> final(m).wf(),
        !final(m).is_initialized(),
        !old(m).is_initialized() ==> *final(m) == *old(m),
{
    m.private_data = None;
}

/// How many entries the mode shows, unfiltered.
pub fn mode_get_num_entries<P: ModePlugin>(m: &Mode<P>) -> (r: u32)
    requires
        m.caps.has_get_num_entries,
        m.is_initialized(),
    ensures
        r == m.private_data->0.spec_entry_count(),
{
    match &m.private_data {
        Some(data) => data.entry_count(),
        None => 0,
    }
}

/// The display state of an entry and, when `get_entry` asks for it, a
/// fresh copy of its display text; without the request only the state is
/// produced.
pub fn mode_get_display_value<P: ModePlugin>(m: &Mode<P>, selected_line: u32, get_entry: bool) -> (r:
    (u32, Option<String>))
    requires
        m.caps.has_get_display_value,
        m.is_initialized(),
        selected_line < m.private_data->0.spec_entry_count(),
    ensures
        r.0 == m.private_data->0.spec_display_state(selected_line),
        get_entry ==> r.1 is Some && r.1->0@ == m.private_data->0.spec_display_entry(
            selected_line,
        ),
        !get_entry ==> r.1 is None,
{
    match &m.private_data {
        Some(data) => data.display_value(selected_line, get_entry),
        None => (0, None),
    }
}

/// The icon of an entry.  An unsupported capability yields `None` without
/// invoking the plugin.
pub fn mode_get_icon<P: ModePlugin>(m: &Mode<P>, selected_line: u32, height: i32) -> (r: Option<
    u32,
>)
    requires
        m.is_initialized(),
        m.caps.has_get_icon ==> selected_line < m.private_data->0.spec_entry_count(),
    ensures
        m.caps.has_get_icon ==> r == m.private_data->0.spec_icon(selected_line, height),
        !m.caps.has_get_icon ==> r is None,
{
    if !m.caps.has_get_icon {
        return None;
    }
    match &m.private_data {
        Some(data) => data.icon(selected_line, height),
        None => None,
    }
}

/// The completion text of an entry.  An unsupported capability yields
/// `None` without invoking the plugin.
pub fn mode_get_completion<P: ModePlugin>(m: &Mode<P>, selected_line: u32) -> (r: Option<String>)
    requires
        m.is_initialized(),
        m.caps.has_get_completion ==> selected_line < m.private_data->0.spec_entry_count(),
    ensures
        m.caps.has_get_completion ==> r is Some && r->0@ == m.private_data->0.spec_completion(
            selected_line,
        ),
        !m.caps.has_get_completion ==> r is None,
{
    if !m.caps.has_get_completion {
        return None;
    }
    match &m.private_data {
        Some(data) => Some(data.completion(selected_line)),
        None => None,
    }
}

/// The message-bar text.  An unsupported capability yields `None` without
/// invoking the plugin.
pub fn mode_get_message<P: ModePlugin>(m: &Mode<P>) -> (r: Option<String>)
    requires
        m.is_initialized(),
    ensures
        m.caps.has_get_message ==> (r is Some <==> m.private_data->0.spec_message() is Some),
        m.caps.has_get_message && r is Some ==> r->0@ == m.private_data->0.spec_message()->0,
        !m.caps.has_get_message ==> r is None,
{
    if !m.caps.has_get_message {
        return None;
    }
    match &m.private_data {
        Some(data) => data.message(),
        None => None,
    }
}

/// Whether an entry matches a list of search predicates.
pub fn mode_token_match<P: ModePlugin>(
    m: &Mode<P>,
    tokens: &Vec<RofiIntMatcher>,
    selected_line: u32,
) -> (r: bool)
    requires
        m.caps.has_token_match,
        m.is_initialized(),
        selected_line < m.private_data->0.spec_entry_count(),
    ensures
        r == m.private_data->0.spec_token_match(tokens@, selected_line),
{
    match &m.private_data {
        Some(data) => data.token_match(tokens, selected_line),
        None => false,
    }
}

/// Strips input down for matching and sorting.  An unsupported capability
/// yields the input unchanged.
pub fn mode_preprocess_input<P: ModePlugin>(m: &Mode<P>, input: &str) -> (r: String)
    requires
        m.is_initialized(),
    ensures
        m.caps.has_preprocess_input ==> r@ == m.private_data->0.spec_preprocess(input@),
        !m.caps.has_preprocess_input ==> r@ == input@,
{
    if !m.caps.has_preprocess_input {
        return input.to_owned();
    }
    match &m.private_data {
        Some(data) => data.preprocess(input),
        None => input.to_owned(),
    }
}

/// Acts on a user interaction: the plugin transforms its private data and
/// chooses the next action and the new input line.
pub fn mode_result<P: ModePlugin>(
    m: &mut Mode<P>,
    menu_retv: u32,
    input: String,
    selected_line: u32,
) -> (r: (u32, String))
    requires
        old(m).caps.has_result,
        old(m).is_initialized(),
    ensures
        final(m).same_metadata(*old(m)),
        old(m).wf() ==> final(m).wf(),
        final(m).is_initialized(),
        final(m).private_data->0 == old(m).private_data->0.spec_on_result(
            menu_retv,
            input@,
            selected_line,
        ).0,
        r.0 == old(m).private_data->0.spec_on_result(menu_retv, input@, selected_line).1,
        r.1@ == old(m).private_data->0.spec_on_result(menu_retv, input@, selected_line).2,
{
    match &mut m.private_data {
        Some(data) => data.on_result(menu_retv, input, selected_line),
        None => (EXIT, input),
    }
}

/// The identifying name of the mode.
pub fn mode_get_name<P: ModePlugin>(m: &Mode<P>) -> (r: &String)
    ensures
        r == &m.name,
{
    &m.name
}

/// The name of the mode as shown to the user, if one was configured.
pub fn mode_get_display_name<P: ModePlugin>(m: &Mode<P>) -> (r: &Option<String>)
    ensures
        r == &m.display_name,
{
    &m.display_name
}

/// A read-only view of the private-data slot.
pub fn mode_get_private_data<P: ModePlugin>(m: &Mode<P>) -> (r: &Option<P>)
    ensures
        r == &m.private_data,
{
    &m.private_data
}

} // verus!
