use crate::counter_walker::walk_path_result::WalkPathResult;
use crate::encoding::EncodingId;
use crate::line_counter::{Confidence, LineCount};
use crate::result_printer::{FinalDisplayOptions, PrinterEntry, ResultPrinter};
use vstd::prelude::*;

verus! {

/// A printer that narrates nothing; the default for quiet output.
pub struct NoopResultPrinter {}

impl ResultPrinter for NoopResultPrinter {
    fn set_options(&mut self, _options: &FinalDisplayOptions) {
    }

    fn print_result(&self, _total: WalkPathResult, _elapsed_millis: u64) {
    }

    fn print_subtotal(&self, _total: LineCount) {
    }

    fn print_folder_total(&self, _total: LineCount, _depth: i32) {
    }

    fn print_header(&self, _path: &str, _num_entries: usize) {
    }

    fn print_folder(&self, _entry: &PrinterEntry<'_>, _num_entries: usize, _depth: i32) {
    }

    fn print_file(
        &self,
        _entry: &PrinterEntry<'_>,
        _lines: LineCount,
        _process_time: i64,
        _encoding: &EncodingId,
        _depth: i32,
        _confidence: Confidence,
    ) {
    }

    fn print_empty_file(
        &self,
        _entry: &PrinterEntry<'_>,
        _process_time: i64,
        _encoding: &EncodingId,
        _depth: i32,
        _confidence: Confidence,
    ) {
    }

    fn print_error_file(
        &self,
        _entry: &PrinterEntry<'_>,
        _process_time: i64,
        _encoding: &EncodingId,
        _depth: i32,
        _confidence: Confidence,
    ) {
    }

    fn requires_advanced_walker(&self) -> bool {
        false
    }
}

} // verus!
