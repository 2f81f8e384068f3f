use crate::line_counter::LineCount;
use crate::summarizer::Summarizer;
use vstd::prelude::*;

verus! {

/// A summarizer that gathers nothing; the default when no summary was
/// asked for.
pub struct NoopSummarizer {}

impl NoopSummarizer {
    pub fn new() -> (r: Self) {
        NoopSummarizer {}
    }
}

impl Summarizer for NoopSummarizer {
    fn append_entry(&mut self, _file_path: &str, _entry: LineCount) {
    }

    fn set_limit(&mut self, _limit: u32) {
    }
}

} // verus!
