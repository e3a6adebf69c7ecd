//! An interactive prompt engine for terminal applications: completion
//! strategies for line editing, an enumerated-value codec with display-name
//! derivation and candidate-list pagination, a file catalog filtered by
//! extension, and validated numeric parsing with inclusive range checks.
use vstd::prelude::*;

mod catalog;
mod chars;
mod codec;
mod engine;
mod listing;
mod parsers;
mod promptable_enum;
mod strategy;
mod text;

pub use crate::catalog::files_with_extension;
pub use crate::catalog::CatalogEntry;
pub use crate::chars::is_ws_char;
pub use crate::codec::add_spaces_before_caps;
pub use crate::codec::display_names;
pub use crate::codec::parse_input;
pub use crate::engine::default_file_path;
pub use crate::engine::enum_prompt_result;
pub use crate::engine::file_prompt_decision;
pub use crate::engine::file_prompt_result;
pub use crate::engine::index_prompt_result;
pub use crate::engine::index_range_prompt_result;
pub use crate::engine::string_prompt_result;
pub use crate::engine::FileDecision;
pub use crate::engine::ReadOutcome;
pub use crate::listing::paginate;
pub use crate::listing::variant_list_lines;
pub use crate::parsers::index_to_decimal;
pub use crate::parsers::parse_index;
pub use crate::parsers::parse_index_range;
pub use crate::promptable_enum::Direction;
pub use crate::promptable_enum::PromptableEnum;
pub use crate::strategy::ActiveHelper;
pub use crate::strategy::EnumCompleterHelper;
pub use crate::strategy::FileCompleterHelper;
pub use crate::text::position_of;
pub use crate::text::trim;

verus! {

/// Both inclusive bounds hold of a value.
pub open spec fn in_range(v: int, low: int, high: int) -> bool {
    low <= v <= high
}

/// Whether a value lies within an inclusive range.
pub fn check_range(v: usize, low: usize, high: usize) -> (r: bool)
    ensures
        r == in_range(v as int, low as int, high as int),
{
    low <= v && v <= high
}

} // verus!
