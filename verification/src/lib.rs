//! A small fact-checking library.
//!
//! Documents (`Information`) carry statistics (`Statistic`), each backed by
//! sources (`Source`).  The `Checkable` trait judges accuracy either from a
//! value's own trust flags or relative to a list of trusted reference values,
//! using a fuzzy, token-overlap-based equality between statistics.

mod model;
mod text;

pub use model::Checkable;
pub use model::Information;
pub use model::Source;
pub use model::Statistic;
pub use model::all_sources_trusted;
pub use model::all_stats_accurate;
pub use model::all_trusted;
pub use model::eq_threshold;
pub use model::lemma_disjoint_trusted_equal;
pub use model::lemma_disjoint_untrusted_unequal;
pub use model::lemma_identical_claims_equal;
pub use model::lemma_no_relevant_sources_error;
pub use model::lemma_threshold_nonnegative;
pub use model::lemma_trusted_document_passes;
pub use model::no_relevant_sources_msg;
pub use model::not_supported_msg;
pub use model::stat_all_eq;
pub use model::stat_eq;
pub use model::stat_matches_all;
pub use model::topics_overlap;
pub use model::topics_share;
pub use text::chars_of;
pub use text::contains_sub;
pub use text::count_matching_tokens;
pub use text::is_space;
pub use text::is_space_char;
pub use text::is_substring;
pub use text::match_count;
pub use text::token_len;
