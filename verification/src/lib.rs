//! A safe, versioned dynamic-plugin bridge for a menu launcher's plugin
//! interface.
//!
//! A host process loads plugins and drives them through a versioned dispatch
//! table.  This crate models that boundary safely, in three layers:
//!
//! * a layout layer ([`types`]): every value that crosses the boundary, as a
//!   plain data type — enumerations, bit-flag sets, a tagged property value,
//!   and an arena-backed distance-expression tree;
//! * a table layer ([`mode_private`], [`mode`]): the versioned dispatch table
//!   a plugin publishes, its capability set, and the init/destroy lifecycle
//!   the host drives, with out-of-order calls ruled out by preconditions
//!   instead of null function pointers;
//! * a call layer ([`helper`], [`icon_fetcher`], [`view`]): the host services
//!   a plugin calls back into — tokenised matching, fuzzy-alignment scoring,
//!   argument lookup, result-line formatting, and the poll-based icon
//!   fetcher.

pub mod helper;
pub mod icon_fetcher;
pub mod mode;
pub mod mode_private;
pub mod static_mode;
pub mod types;
pub mod view;
