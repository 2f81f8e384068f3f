pub mod noop_result_printer;

use crate::counter_walker::walk_path_result::WalkPathResult;
use crate::encoding::EncodingId;
use crate::line_counter::{Confidence, LineCount, LineCountFormat};
use crate::text::{basename_of, spec_basename};
use vstd::prelude::*;

verus! {

/// What the operator asked the printers to show.
#[derive(Debug, Copy, Clone)]
pub struct FinalDisplayOptions {
    pub show_all: bool,
    pub verbose: bool,
    pub very_verbose: bool,
    pub simple: bool,
    pub line_count_format: LineCountFormat,
}

/// One entry as the printers see it: its name and its full path.
#[derive(Debug)]
pub struct PrinterEntry<'a> {
    pub name: String,
    pub path: &'a str,
}

impl<'a> PrinterEntry<'a> {
    pub fn from_path(path: &'a str) -> (r: PrinterEntry<'a>)
        ensures
            r.name@ == spec_basename(path@),
            r.path@ == path@,
    {
        let name = basename_of(path);
        PrinterEntry { name, path }
    }
}

/// The per-entry narration hooks the walker fires; implementations render
/// them and never feed anything back into the counting.
pub trait ResultPrinter {
    fn set_options(&mut self, options: &FinalDisplayOptions);

    fn print_result(&self, total: WalkPathResult, elapsed_millis: u64);

    fn print_subtotal(&self, total: LineCount);

    fn print_folder_total(&self, total: LineCount, depth: i32);

    fn print_header(&self, path: &str, num_entries: usize);

    fn print_folder(&self, entry: &PrinterEntry<'_>, num_entries: usize, depth: i32);

    fn print_file(
        &self,
        entry: &PrinterEntry<'_>,
        lines: LineCount,
        process_time: i64,
        encoding: &EncodingId,
        depth: i32,
        confidence: Confidence,
    );

    fn print_empty_file(
        &self,
        entry: &PrinterEntry<'_>,
        process_time: i64,
        encoding: &EncodingId,
        depth: i32,
        confidence: Confidence,
    );

    fn print_error_file(
        &self,
        entry: &PrinterEntry<'_>,
        process_time: i64,
        encoding: &EncodingId,
        depth: i32,
        confidence: Confidence,
    );

    /// Whether this printer needs the depth-aware walker, or the cheaper
    /// flattened one serves it.
    fn requires_advanced_walker(&self) -> bool;
}

} // verus!
