//! Table layer: the versioned dispatch table a plugin publishes.
//!
//! A plugin hands the host one [`Mode`] value.  Instead of nullable function
//! pointers, the table carries a [`ModeCapabilities`] record saying which
//! callbacks the plugin supports, and the callbacks themselves are the
//! methods of a [`ModePlugin`] implementation.  The private-data slot is an
//! `Option`: it is empty until `init` succeeds and empty again after
//! `destroy`, so the lifecycle state is explicit in the data.
//!
//! Two table layouts exist, identified by the ABI-version tag: the baseline
//! layout ([`ABI_VERSION_BASELINE`]) and the extended layout
//! ([`ABI_VERSION_EXTENDED`]), which additionally carries a
//! [`ModeExtension`].  The tag is chosen at construction and never changes;
//! a host accepts a table only when the tag equals its own expected value.

use vstd::prelude::*;

use crate::types::GModule;
use crate::types::RofiIntMatcher;

verus! {

/// ABI-version tag of the baseline table layout.
pub const ABI_VERSION_BASELINE: u32 = 6;

/// ABI-version tag of the extended table layout.
pub const ABI_VERSION_EXTENDED: u32 = 7;

/// Longest permitted mode name, in characters.
pub const MODE_NAME_MAX: usize = 31;

/// Exact size of the configuration-key buffer embedded in the table.
pub const CFG_NAME_KEY_SIZE: usize = 128;

/// The mode is not marked as any type.
pub const MODE_TYPE_UNSET: u32 = 0;

/// A classic switcher mode.
pub const MODE_TYPE_SWITCHER: u32 = 1;

/// A mode that can complete input.
pub const MODE_TYPE_COMPLETER: u32 = 2;

/// A dmenu-style mode.
pub const MODE_TYPE_DMENU: u32 = 4;

/// Every defined mode-type bit.
pub const MODE_TYPE_ALL: u32 = MODE_TYPE_SWITCHER | MODE_TYPE_COMPLETER | MODE_TYPE_DMENU;

/// What type a mode is: a set of `MODE_TYPE_*` bits (extended layout only).
#[derive(Clone, Copy, Debug, PartialEq, Eq, Structural)]
pub struct ModeType {
    /// The raw flag word, exactly as it crosses the boundary.
    pub bits: u32,
}

impl ModeType {
    /// No type marked.
    pub fn unset() -> (r: Self)
        ensures
            r.bits == MODE_TYPE_UNSET,
    {
        ModeType { bits: MODE_TYPE_UNSET }
    }

    /// Accepts a raw flag word if every set bit is a defined mode-type bit.
    pub fn from_bits(bits: u32) -> (r: Option<Self>)
        ensures
            r is Some <==> bits & !MODE_TYPE_ALL == 0,
            r is Some ==> r->0.bits == bits,
    {
        if bits & !MODE_TYPE_ALL == 0 {
            Some(ModeType { bits })
        } else {
            None
        }
    }

    /// Whether every bit of `other` is set in `self`.
    pub fn contains(self, other: Self) -> (r: bool)
        ensures
            r == (self.bits & other.bits == other.bits),
    {
        self.bits & other.bits == other.bits
    }
}

/// Which callbacks a plugin's table supports.
///
/// A cleared flag means "capability not supported": the host never invokes
/// the callback and uses the documented default instead.
#[derive(Clone, Copy, Debug, PartialEq, Eq, Structural)]
pub struct ModeCapabilities {
    /// Initialise the mode.
    pub has_init: bool,
    /// Destroy the mode, ready for a restart.
    pub has_destroy: bool,
    /// Count the (unfiltered) entries.
    pub has_get_num_entries: bool,
    /// Process the outcome of a user interaction.
    pub has_result: bool,
    /// Match an entry against search predicates.
    pub has_token_match: bool,
    /// Produce the display text and state of an entry.
    pub has_get_display_value: bool,
    /// Produce the icon of an entry.
    pub has_get_icon: bool,
    /// Produce the completion text of an entry.
    pub has_get_completion: bool,
    /// Strip input down for matching and sorting.
    pub has_preprocess_input: bool,
    /// Produce the message-bar text.
    pub has_get_message: bool,
}

impl ModeCapabilities {
    /// No capability supported.
    pub fn none() -> (r: Self)
        ensures
            !r.has_init,
            !r.has_destroy,
            !r.has_get_num_entries,
            !r.has_result,
            !r.has_token_match,
            !r.has_get_display_value,
            !r.has_get_icon,
            !r.has_get_completion,
            !r.has_preprocess_input,
            !r.has_get_message,
    {
        ModeCapabilities {
            has_init: false,
            has_destroy: false,
            has_get_num_entries: false,
            has_result: false,
            has_token_match: false,
            has_get_display_value: false,
            has_get_icon: false,
            has_get_completion: false,
            has_preprocess_input: false,
            has_get_message: false,
        }
    }
}

/// The fields only the extended table layout carries.
#[derive(Clone, Copy, Debug, PartialEq, Eq, Structural)]
pub struct ModeExtension {
    /// What type of mode this is.
    pub mode_type: ModeType,
    /// Whether the plugin can create a fresh table instance.
    pub has_create: bool,
    /// Whether the plugin handles completer results.
    pub has_completer_result: bool,
    /// Request identifier of the fallback icon fetch.
    pub fallback_icon_fetch_uid: u32,
    /// Whether the fallback icon lookup already failed.
    pub fallback_icon_not_found: u32,
}

/// The callbacks of a plugin, together with their specifications.
///
/// An implementation of this trait is the plugin's private data: `init`
/// builds it, the query methods read it, `on_result` transforms it, and
/// dropping it is the plugin's `destroy`.  Each executable method is pinned
/// to a specification function, so the dispatch layer in [`crate::mode`]
/// can state exactly what it returns.
pub trait ModePlugin: Sized {
    /// How many entries the mode shows, unfiltered.
    spec fn spec_entry_count(self) -> u32;

    /// The display state of an entry.
    spec fn spec_display_state(self, line: u32) -> u32;

    /// The display text of an entry.
    spec fn spec_display_entry(self, line: u32) -> Seq<char>;

    /// The icon of an entry, as a host surface identifier, if it has one.
    spec fn spec_icon(self, line: u32, height: i32) -> Option<u32>;

    /// The completion text of an entry.
    spec fn spec_completion(self, line: u32) -> Seq<char>;

    /// Whether an entry matches a list of search predicates.
    spec fn spec_token_match(self, tokens: Seq<RofiIntMatcher>, line: u32) -> bool;

    /// The message-bar text, if the mode shows one.
    spec fn spec_message(self) -> Option<Seq<char>>;

    /// Input stripped down for matching and sorting.
    spec fn spec_preprocess(self, input: Seq<char>) -> Seq<char>;

    /// How a user interaction transforms the mode: the new private data,
    /// the next action for the host, and the new input line.
    spec fn spec_on_result(self, menu_retv: u32, input: Seq<char>, line: u32) -> (
        Self,
        u32,
        Seq<char>,
    );

    /// Builds the private data; `None` reports an initialisation failure.
    fn init() -> (r: Option<Self>);

    /// How many entries the mode shows, unfiltered.
    fn entry_count(&self) -> (r: u32)
        ensures
            r == self.spec_entry_count(),
    ;

    /// The display state of an entry and, when `get_entry` asks for it, a
    /// fresh copy of its display text.
    fn display_value(&self, line: u32, get_entry: bool) -> (r: (u32, Option<String>))
        requires
            line < self.spec_entry_count(),
        ensures
            r.0 == self.spec_display_state(line),
            get_entry ==> r.1 is Some && r.1->0@ == self.spec_display_entry(line),
            !get_entry ==> r.1 is None,
    ;

    /// The icon of an entry, if it has one.
    fn icon(&self, line: u32, height: i32) -> (r: Option<u32>)
        requires
            line < self.spec_entry_count(),
        ensures
            r == self.spec_icon(line, height),
    ;

    /// The completion text of an entry.
    fn completion(&self, line: u32) -> (r: String)
        requires
            line < self.spec_entry_count(),
        ensures
            r@ == self.spec_completion(line),
    ;

    /// Whether an entry matches a list of search predicates.
    fn token_match(&self, tokens: &Vec<RofiIntMatcher>, line: u32) -> (r: bool)
        requires
            line < self.spec_entry_count(),
        ensures
            r == self.spec_token_match(tokens@, line),
    ;

    /// The message-bar text, if the mode shows one.
    fn message(&self) -> (r: Option<String>)
        ensures
            r is Some <==> self.spec_message() is Some,
            r is Some ==> r->0@ == self.spec_message()->0,
    ;

    /// Input stripped down for matching and sorting.
    fn preprocess(&self, input: &str) -> (r: String)
        ensures
            r@ == self.spec_preprocess(input@),
    ;

    /// Processes the outcome of a user interaction.
    fn on_result(&mut self, menu_retv: u32, input: String, line: u32) -> (r: (u32, String))
        ensures
            *final(self) == old(self).spec_on_result(menu_retv, input@, line).0,
            r.0 == old(self).spec_on_result(menu_retv, input@, line).1,
            r.1@ == old(self).spec_on_result(menu_retv, input@, line).2,
    ;
}

/// The dispatch table a plugin publishes: metadata, a capability set, and
/// the private-data slot the lifecycle fills and clears.
pub struct Mode<P> {
    /// The layout tag, set at construction and never mutated.
    pub abi_version: u32,
    /// Identifying name of the mode.
    pub name: String,
    /// Lookup key into the host's configuration store; exactly
    /// [`CFG_NAME_KEY_SIZE`] bytes, null-padded.
    pub cfg_name_key: Vec<u8>,
    /// Name shown to the user, if one was configured.
    pub display_name: Option<String>,
    /// Which callbacks the plugin supports.
    pub caps: ModeCapabilities,
    /// The plugin's private data: empty until `init` succeeds, empty again
    /// after `destroy`.
    pub private_data: Option<P>,
    /// Handle of the loader module the plugin came from, if it was loaded
    /// dynamically.
    pub module: Option<GModule>,
    /// The extended-layout fields; present exactly on extended tables.
    pub ext: Option<ModeExtension>,
}

impl<P> Mode<P> {
    /// The table invariant: a bounded name, a full-size null-terminated
    /// configuration key, and a version tag that matches the layout.
    pub open spec fn wf(self) -> bool {
        &&& self.name@.len() <= MODE_NAME_MAX as nat
        &&& self.cfg_name_key@.len() == CFG_NAME_KEY_SIZE as nat
        &&& self.cfg_name_key@[CFG_NAME_KEY_SIZE as int - 1] == 0u8
        &&& (self.abi_version == ABI_VERSION_BASELINE || self.abi_version == ABI_VERSION_EXTENDED)
        &&& (self.abi_version == ABI_VERSION_BASELINE <==> self.ext is None)
    }

    /// Whether the lifecycle is in the initialised state: the private-data
    /// slot is filled.
    pub open spec fn is_initialized(self) -> bool {
        self.private_data is Some
    }

    /// Whether everything but the private-data slot is unchanged.
    pub open spec fn same_metadata(self, other: Self) -> bool {
        &&& self.abi_version == other.abi_version
        &&& self.name == other.name
        &&& self.cfg_name_key == other.cfg_name_key
        &&& self.display_name == other.display_name
        &&& self.caps == other.caps
        &&& self.module == other.module
        &&& self.ext == other.ext
    }

    /// Builds a baseline-layout table; the private-data slot starts empty.
    pub fn new_baseline(
        name: String,
        cfg_name_key: Vec<u8>,
        display_name: Option<String>,
        caps: ModeCapabilities,
        module: Option<GModule>,
    ) -> (r: Mode<P>)
        requires
            name@.len() <= MODE_NAME_MAX as nat,
            cfg_name_key@.len() == CFG_NAME_KEY_SIZE as nat,
            cfg_name_key@[CFG_NAME_KEY_SIZE as int - 1] == 0u8,
        ensures
            r.wf(),
            r.abi_version == ABI_VERSION_BASELINE,
            r.name == name,
            r.cfg_name_key == cfg_name_key,
            r.display_name == display_name,
            r.caps == caps,
            r.module == module,
            r.ext is None,
            !r.is_initialized(),
    {
        Mode {
            abi_version: ABI_VERSION_BASELINE,
            name,
            cfg_name_key,
            display_name,
            caps,
            private_data: None,
            module,
            ext: None,
        }
    }

    /// Builds an extended-layout table; the private-data slot starts empty.
    pub fn new_extended(
        name: String,
        cfg_name_key: Vec<u8>,
        display_name: Option<String>,
        caps: ModeCapabilities,
        module: Option<GModule>,
        ext: ModeExtension,
    ) -> (r: Mode<P>)
        requires
            name@.len() <= MODE_NAME_MAX as nat,
            cfg_name_key@.len() == CFG_NAME_KEY_SIZE as nat,
            cfg_name_key@[CFG_NAME_KEY_SIZE as int - 1] == 0u8,
        ensures
            r.wf(),
            r.abi_version == ABI_VERSION_EXTENDED,
            r.name == name,
            r.cfg_name_key == cfg_name_key,
            r.display_name == display_name,
            r.caps == caps,
            r.module == module,
            r.ext == Some(ext),
            !r.is_initialized(),
    {
        Mode {
            abi_version: ABI_VERSION_EXTENDED,
            name,
            cfg_name_key,
            display_name,
            caps,
            private_data: None,
            module,
            ext: Some(ext),
        }
    }

    /// The host's load-time check: the table is accepted exactly when its
    /// version tag equals the host's own compiled expectation.
    pub fn validate_abi(&self, host_expected: u32) -> (r: bool)
        ensures
            r == (self.abi_version == host_expected),
    {
        self.abi_version == host_expected
    }
}

impl<P> Default for Mode<P> {
    /// An empty baseline table: no name, a zeroed configuration key, no
    /// capabilities, and an empty private-data slot.
    fn default() -> (r: Self)
        ensures
            r.wf(),
            r.abi_version == ABI_VERSION_BASELINE,
            r.name@.len() == 0,
            r.display_name is None,
            !r.caps.has_init && !r.caps.has_destroy && !r.caps.has_get_num_entries
                && !r.caps.has_result && !r.caps.has_token_match && !r.caps.has_get_display_value
                && !r.caps.has_get_icon && !r.caps.has_get_completion
                && !r.caps.has_preprocess_input && !r.caps.has_get_message,
            r.module is None,
            r.ext is None,
            !r.is_initialized(),
    {
        let empty_key: Vec<u8> = Vec::new();
        let key = cfg_name_key_buffer(&empty_key);
        Mode::new_baseline(String::new(), key, None, ModeCapabilities::none(), None)
    }
}

/// Builds the fixed-size configuration-key buffer: the key itself,
/// null-padded to exactly [`CFG_NAME_KEY_SIZE`] bytes.
pub fn cfg_name_key_buffer(key: &Vec<u8>) -> (r: Vec<u8>)
    requires
        key@.len() < CFG_NAME_KEY_SIZE as nat,
    ensures
        r@.len() == CFG_NAME_KEY_SIZE as nat,
        r@.subrange(0, key@.len() as int) == key@,
        forall|i: int| key@.len() <= i < CFG_NAME_KEY_SIZE as int ==> r@[i] == 0u8,
{
    let mut r: Vec<u8> = Vec::new();
    let mut i: usize = 0;
    while i < key.len()
        invariant
            i <= key@.len(),
            key@.len() < CFG_NAME_KEY_SIZE as nat,
            r@ == key@.subrange(0, i as int),
        decreases key@.len() - i,
    {
        r.push(key[i]);
        i += 1;
        proof {
            assert(r@ =~= key@.subrange(0, i as int));
        }
    }
    proof {
        assert(r@ =~= key@);
    }
    while r.len() < CFG_NAME_KEY_SIZE
        invariant
            key@.len() <= r@.len() <= CFG_NAME_KEY_SIZE as nat,
            r@.subrange(0, key@.len() as int) == key@,
            forall|j: int| key@.len() <= j < r@.len() ==> r@[j] == 0u8,
        decreases CFG_NAME_KEY_SIZE - r@.len(),
    {
        r.push(0);
        proof {
            assert(r@.subrange(0, key@.len() as int) =~= key@);
        }
    }
    r
}

} // verus!
