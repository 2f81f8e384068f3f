use linenav::counter_walker::walk_path_result::WalkPathResult;
use linenav::counter_walker::{walk_path, ExcludeOptions};
use linenav::encoding::EncodingId;
use linenav::fs_tree::{DirData, FileContent, FileData, FsEntry};
use linenav::line_counter::{Confidence, LineCount, LineCountFormat};
use linenav::result_printer::{FinalDisplayOptions, PrinterEntry, ResultPrinter};
use linenav::summarizer::noop_summarizer::NoopSummarizer;
use std::cell::RefCell;

struct RecordingPrinter {
    events: RefCell<Vec<String>>,
}

impl RecordingPrinter {
    fn push(&self, e: String) {
        self.events.borrow_mut().push(e);
    }
}

impl ResultPrinter for RecordingPrinter {
    fn set_options(&mut self, _options: &FinalDisplayOptions) {}

    fn print_result(&self, total: WalkPathResult, _elapsed_millis: u64) {
        self.push(format!("result:{}", total.line_count.lines));
    }

    fn print_subtotal(&self, total: LineCount) {
        self.push(format!("subtotal:{}", total.lines));
    }

    fn print_folder_total(&self, total: LineCount, depth: i32) {
        self.push(format!("folder_total:{}:{}", total.lines, depth));
    }

    fn print_header(&self, path: &str, num_entries: usize) {
        self.push(format!("header:{}:{}", path, num_entries));
    }

    fn print_folder(&self, entry: &PrinterEntry<'_>, num_entries: usize, depth: i32) {
        self.push(format!("folder:{}:{}:{}", entry.name, num_entries, depth));
    }

    fn print_file(
        &self,
        entry: &PrinterEntry<'_>,
        lines: LineCount,
        _process_time: i64,
        encoding: &EncodingId,
        depth: i32,
        confidence: Confidence,
    ) {
        let forced = confidence == Confidence::Forced;
        self.push(format!(
            "file:{}:{}:{}:{}:{}",
            entry.name,
            lines.lines,
            encoding.name(),
            depth,
            forced
        ));
    }

    fn print_empty_file(
        &self,
        entry: &PrinterEntry<'_>,
        _process_time: i64,
        _encoding: &EncodingId,
        depth: i32,
        _confidence: Confidence,
    ) {
        self.push(format!("empty:{}:{}", entry.name, depth));
    }

    fn print_error_file(
        &self,
        entry: &PrinterEntry<'_>,
        _process_time: i64,
        _encoding: &EncodingId,
        depth: i32,
        _confidence: Confidence,
    ) {
        self.push(format!("error:{}:{}", entry.name, depth));
    }

    fn requires_advanced_walker(&self) -> bool {
        true
    }
}

fn file(name: &str, data: &[u8]) -> FsEntry {
    FsEntry::File(FileData {
        name: name.to_string(),
        content: FileContent::Bytes { data: data.to_vec(), detection: None },
    })
}

#[test]
fn events_fire_in_scan_order() {
    let root = DirData {
        name: "root".to_string(),
        children: vec![
            file("a.txt", b"x\n"),
            file("empty.txt", b""),
            FsEntry::Dir(DirData {
                name: "sub".to_string(),
                children: vec![file("bad.bin", b"\x80\n"), file("c.txt", b"1\n2\n")],
            }),
        ],
    };
    let enc = EncodingId::from_label("UTF-8").unwrap();
    let printer = RecordingPrinter { events: RefCell::new(Vec::new()) };
    let mut summarizer = NoopSummarizer::new();
    let exts = Vec::new();
    let excl = Vec::new();
    let r = walk_path(
        &root,
        "root",
        Some(&enc),
        0,
        &printer,
        &mut summarizer,
        &ExcludeOptions { include_extensions: &exts, exclude: &excl },
    );
    assert_eq!(r.line_count.lines, 3);
    let events = printer.events.into_inner();
    assert_eq!(
        events,
        vec![
            "header:root:3".to_string(),
            "file:a.txt:1:UTF-8:0:true".to_string(),
            "empty:empty.txt:0".to_string(),
            "folder:sub:2:0".to_string(),
            "error:bad.bin:1".to_string(),
            "file:c.txt:2:UTF-8:1:true".to_string(),
            "folder_total:2:1".to_string(),
        ]
    );
}

#[test]
fn printer_entry_takes_the_final_segment() {
    let e = PrinterEntry::from_path("a/b/c.txt");
    assert_eq!(e.name, "c.txt");
    assert_eq!(e.path, "a/b/c.txt");
}

#[test]
fn display_options_carry_the_format() {
    let o = FinalDisplayOptions {
        show_all: true,
        verbose: false,
        very_verbose: false,
        simple: true,
        line_count_format: LineCountFormat::Simple { show_bytes: false },
    };
    assert!(o.show_all);
    assert!(matches!(o.line_count_format, LineCountFormat::Simple { show_bytes: false }));
}
