//! A minimal built-in mode: a fixed list of entries.
//!
//! This is the canonical smallest plugin: its private data is the entry
//! list itself, every entry is displayed as it is stored, matching runs the
//! ordinary predicate matcher over an entry, and a user interaction yields
//! the canonical next action.  It doubles as the reference implementation
//! of [`ModePlugin`].

use vstd::prelude::*;
use vstd::string::StringExecFns;

use crate::helper::spec_tokens_match;
use crate::helper::str_to_chars;
use crate::helper::token_match;
use crate::mode::menu_result_next_action;
use crate::mode::spec_menu_next_action;
use crate::mode_private::ModePlugin;
use crate::types::RofiIntMatcher;

verus! {

/// The private data of the built-in mode: its entries.
pub struct StaticMode {
    /// The entries, in display order.
    pub entries: Vec<String>,
}

impl ModePlugin for StaticMode {
    /// The number of entries, saturated to the `u32` the table layer
    /// speaks.
    open spec fn spec_entry_count(self) -> u32 {
        if self.entries@.len() > u32::MAX {
            u32::MAX
        } else {
            self.entries@.len() as u32
        }
    }

    /// Every entry is displayed in the normal state.
    open spec fn spec_display_state(self, line: u32) -> u32 {
        0
    }

    /// An entry is displayed exactly as stored.
    open spec fn spec_display_entry(self, line: u32) -> Seq<char> {
        self.entries@[line as int]@
    }

    /// Entries have no icons.
    open spec fn spec_icon(self, line: u32, height: i32) -> Option<u32> {
        None
    }

    /// An entry completes to exactly its stored text.
    open spec fn spec_completion(self, line: u32) -> Seq<char> {
        self.entries@[line as int]@
    }

    /// An entry matches when every predicate accepts its stored text.
    open spec fn spec_token_match(self, tokens: Seq<RofiIntMatcher>, line: u32) -> bool {
        spec_tokens_match(tokens, self.entries@[line as int]@)
    }

    /// The mode shows no message.
    open spec fn spec_message(self) -> Option<Seq<char>> {
        None
    }

    /// Input is matched as typed.
    open spec fn spec_preprocess(self, input: Seq<char>) -> Seq<char> {
        input
    }

    /// An interaction keeps the entries and the input and yields the
    /// canonical next action for the menu return value.
    open spec fn spec_on_result(self, menu_retv: u32, input: Seq<char>, line: u32) -> (
        Self,
        u32,
        Seq<char>,
    ) {
        (self, spec_menu_next_action(menu_retv), input)
    }

    /// Always succeeds, installing the two sample entries.
    fn init() -> (r: Option<Self>)
        ensures
            r is Some,
            r->0.entries@.len() == 2,
            r->0.entries@[0]@ == "foo"@,
            r->0.entries@[1]@ == "bar"@,
    {
        let mut entries: Vec<String> = Vec::new();
        entries.push(String::from_str("foo"));
        entries.push(String::from_str("bar"));
        Some(StaticMode { entries })
    }

    fn entry_count(&self) -> (r: u32) {
        if self.entries.len() > u32::MAX as usize {
            u32::MAX
        } else {
            self.entries.len() as u32
        }
    }

    fn display_value(&self, line: u32, get_entry: bool) -> (r: (u32, Option<String>)) {
        if get_entry {
            (0, Some(self.entries[line as usize].clone()))
        } else {
            (0, None)
        }
    }

    fn icon(&self, line: u32, height: i32) -> (r: Option<u32>) {
        None
    }

    fn completion(&self, line: u32) -> (r: String) {
        self.entries[line as usize].clone()
    }

    fn token_match(&self, tokens: &Vec<RofiIntMatcher>, line: u32) -> (r: bool) {
        let entry = str_to_chars(self.entries[line as usize].as_str());
        token_match(tokens, &entry)
    }

    fn message(&self) -> (r: Option<String>) {
        None
    }

    fn preprocess(&self, input: &str) -> (r: String) {
        input.to_owned()
    }

    fn on_result(&mut self, menu_retv: u32, input: String, line: u32) -> (r: (u32, String)) {
        (menu_result_next_action(menu_retv), input)
    }
}

} // verus!
