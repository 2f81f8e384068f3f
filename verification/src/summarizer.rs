pub mod default_summarizer;
pub mod leaderboard_summarizer;
pub mod noop_summarizer;

use crate::line_counter::LineCount;
use vstd::prelude::*;

verus! {

/// The cross-cutting aggregation hook: the walker feeds it one call per
/// counted file; how a summary is rendered from what it gathered is the
/// caller's affair.
pub trait Summarizer {
    fn append_entry(&mut self, file_path: &str, entry: LineCount);

    fn set_limit(&mut self, limit: u32);
}

} // verus!
