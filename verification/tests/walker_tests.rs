use linenav::counter_walker::walk_path_result::WalkPathResult;
use linenav::counter_walker::{
    handle_file_entry, simple_walk_path, try_walk_path, walk_path, ExcludeOptions,
};
use linenav::encoding::EncodingId;
use linenav::fs_tree::{Detection, DirData, FileContent, FileData, FsEntry};
use linenav::result_printer::noop_result_printer::NoopResultPrinter;
use linenav::result_printer::PrinterEntry;
use linenav::summarizer::leaderboard_summarizer::LeaderboardSummarizer;
use linenav::summarizer::noop_summarizer::NoopSummarizer;

fn file(name: &str, data: &[u8]) -> FsEntry {
    FsEntry::File(FileData {
        name: name.to_string(),
        content: FileContent::Bytes { data: data.to_vec(), detection: None },
    })
}

fn detected_file(name: &str, data: &[u8], label: &str, confidence: u32) -> FsEntry {
    FsEntry::File(FileData {
        name: name.to_string(),
        content: FileContent::Bytes {
            data: data.to_vec(),
            detection: Some(Detection { label: label.to_string(), confidence }),
        },
    })
}

fn unreadable(name: &str) -> FsEntry {
    FsEntry::File(FileData { name: name.to_string(), content: FileContent::Unreadable })
}

fn dir(name: &str, children: Vec<FsEntry>) -> DirData {
    DirData { name: name.to_string(), children }
}

fn no_filter() -> (Vec<String>, Vec<String>) {
    (Vec::new(), Vec::new())
}

fn scan(root: &DirData, forced: Option<&EncodingId>, exts: &Vec<String>, excl: &Vec<String>) -> WalkPathResult {
    let printer = NoopResultPrinter {};
    let mut summarizer = NoopSummarizer::new();
    walk_path(
        root,
        "root",
        forced,
        0,
        &printer,
        &mut summarizer,
        &ExcludeOptions { include_extensions: exts, exclude: excl },
    )
}

fn scan_simple(root: &DirData, forced: Option<&EncodingId>, exts: &Vec<String>, excl: &Vec<String>) -> WalkPathResult {
    let printer = NoopResultPrinter {};
    let mut summarizer = NoopSummarizer::new();
    simple_walk_path(
        root,
        "root",
        forced,
        &printer,
        &mut summarizer,
        &ExcludeOptions { include_extensions: exts, exclude: excl },
    )
}

fn utf8() -> EncodingId {
    EncodingId::from_label("UTF-8").unwrap()
}

#[test]
fn scenario_counted_empty_and_nested() {
    let root = dir(
        "root",
        vec![
            file("a.txt", b"one\ntwo\nthree\n"),
            file("b.txt", b""),
            FsEntry::Dir(dir("sub", vec![file("c.txt", b"x\n\n")])),
        ],
    );
    let (exts, excl) = no_filter();
    let enc = utf8();
    let r = scan(&root, Some(&enc), &exts, &excl);
    assert_eq!(r.file_count, 2);
    assert_eq!(r.empty_file_count, 1);
    assert_eq!(r.error_file_count, 0);
    assert_eq!(r.folder_count, 2);
    assert_eq!(r.line_count.lines, 5);
    assert_eq!(r.line_count.blank_lines, 1);
}

#[test]
fn scenario_forced_utf8_on_invalid_bytes_is_invalid() {
    let root = dir("root", vec![file("bad.bin", b"\x80hello\n")]);
    let (exts, excl) = no_filter();
    let enc = utf8();
    let r = scan(&root, Some(&enc), &exts, &excl);
    assert_eq!(r.error_file_count, 1);
    assert_eq!(r.file_count, 0);
    assert_eq!(r.empty_file_count, 0);
    assert_eq!(r.line_count.lines, 0);
    assert_eq!(r.line_count.blank_lines, 0);
    assert_eq!(r.line_count.bytes, 0);
}

#[test]
fn scenario_extension_filter_keeps_rs_and_descends() {
    let root = dir(
        "root",
        vec![
            file("a.rs", b"fn a() {}\n"),
            file("b.txt", b"ignored\n"),
            FsEntry::Dir(dir("sub", vec![file("c.rs", b"fn c() {}\n")])),
        ],
    );
    let exts = vec!["rs".to_string()];
    let excl = Vec::new();
    let enc = utf8();
    let r = scan(&root, Some(&enc), &exts, &excl);
    assert_eq!(r.file_count, 2);
    assert_eq!(r.empty_file_count, 0);
    assert_eq!(r.error_file_count, 0);
    assert_eq!(r.folder_count, 2);
    assert_eq!(r.line_count.lines, 2);
}

#[test]
fn extension_filter_never_drops_extensionless_files_or_dirs() {
    let root = dir(
        "root",
        vec![
            file("Makefile", b"all:\n"),
            FsEntry::Dir(dir("sub.txt", vec![file("inner.rs", b"x\n")])),
        ],
    );
    let exts = vec!["rs".to_string()];
    let excl = Vec::new();
    let enc = utf8();
    let r = scan(&root, Some(&enc), &exts, &excl);
    // The extensionless file is counted, the directory with a .txt-looking
    // name is still descended into.
    assert_eq!(r.file_count, 2);
    assert_eq!(r.folder_count, 2);
    assert_eq!(r.line_count.lines, 2);
}

#[test]
fn name_exclusion_removes_entry_and_nested_contents() {
    let root = dir(
        "root",
        vec![
            file("keep.txt", b"kept\n"),
            file("drop.txt", b"dropped\n"),
            FsEntry::Dir(dir(
                "node_modules",
                vec![file("x.txt", b"a\n"), FsEntry::Dir(dir("deep", vec![file("y.txt", b"b\n")]))],
            )),
        ],
    );
    let exts = Vec::new();
    let excl = vec!["node_modules".to_string(), "drop.txt".to_string()];
    let enc = utf8();
    let r = scan(&root, Some(&enc), &exts, &excl);
    assert_eq!(r.file_count, 1);
    assert_eq!(r.folder_count, 1);
    assert_eq!(r.line_count.lines, 1);
    assert_eq!(r.empty_file_count, 0);
    assert_eq!(r.error_file_count, 0);
}

#[test]
fn unreadable_file_is_invalid_but_does_not_abort() {
    let root = dir("root", vec![unreadable("locked.txt"), file("ok.txt", b"fine\n")]);
    let (exts, excl) = no_filter();
    let enc = utf8();
    let r = scan(&root, Some(&enc), &exts, &excl);
    assert_eq!(r.error_file_count, 1);
    assert_eq!(r.file_count, 1);
    assert_eq!(r.line_count.lines, 1);
}

#[test]
fn blank_only_file_counts_as_counted_not_empty() {
    // Lines of whitespace are still lines: only a file with no lines at
    // all is tallied empty.
    let root = dir("root", vec![file("blank.txt", b" \n\t\n")]);
    let (exts, excl) = no_filter();
    let enc = utf8();
    let r = scan(&root, Some(&enc), &exts, &excl);
    assert_eq!(r.file_count, 1);
    assert_eq!(r.empty_file_count, 0);
    assert_eq!(r.line_count.lines, 2);
    assert_eq!(r.line_count.blank_lines, 2);
}

#[test]
fn auto_detection_uses_label_and_falls_back_to_utf8() {
    // A latin-1 label decodes the high byte; an unknown label falls back
    // to UTF-8 and the same byte is corruption there.
    let root = dir(
        "root",
        vec![
            detected_file("latin.txt", b"caf\xe9\n", "latin1", 9000),
            detected_file("odd.txt", b"caf\xe9\n", "no-such-encoding", 100),
        ],
    );
    let (exts, excl) = no_filter();
    let r = scan(&root, None, &exts, &excl);
    assert_eq!(r.file_count, 1);
    assert_eq!(r.error_file_count, 1);
    assert_eq!(r.line_count.lines, 1);
}

#[test]
fn simple_walk_agrees_with_structured_walk() {
    let root = dir(
        "root",
        vec![
            file("a.txt", b"one\ntwo\n"),
            file("b.txt", b""),
            FsEntry::Dir(dir(
                "sub",
                vec![file("c.txt", b"x\n\n"), FsEntry::Dir(dir("deeper", vec![file("d.txt", b"y\n")]))],
            )),
        ],
    );
    let (exts, excl) = no_filter();
    let enc = utf8();
    let a = scan(&root, Some(&enc), &exts, &excl);
    let b = scan_simple(&root, Some(&enc), &exts, &excl);
    assert_eq!(a, b);
    assert_eq!(a.folder_count, 3);
}

#[test]
fn sibling_partition_adds_up_to_whole_scan() {
    let sub1 = dir("sub1", vec![file("a.txt", b"1\n2\n")]);
    let sub2 = dir("sub2", vec![file("b.txt", b"3\n"), file("c.txt", b"")]);
    let root = dir(
        "root",
        vec![FsEntry::Dir(dir("sub1", vec![file("a.txt", b"1\n2\n")])), FsEntry::Dir(dir(
            "sub2",
            vec![file("b.txt", b"3\n"), file("c.txt", b"")],
        ))],
    );
    let (exts, excl) = no_filter();
    let enc = utf8();
    let whole = scan(&root, Some(&enc), &exts, &excl);
    let part1 = scan(&sub1, Some(&enc), &exts, &excl);
    let part2 = scan(&sub2, Some(&enc), &exts, &excl);
    let mut folded = WalkPathResult::new();
    folded.folder_count = 1;
    folded.add_assign(part1);
    let folded = folded.add(part2);
    assert_eq!(whole, folded);
}

#[test]
fn walker_feeds_summarizer_one_call_per_counted_file() {
    let root = dir(
        "root",
        vec![
            file("a.txt", b"one\n"),
            file("empty.txt", b""),
            unreadable("bad.txt"),
            FsEntry::Dir(dir("sub", vec![file("c.txt", b"x\n")])),
        ],
    );
    let (exts, excl) = no_filter();
    let enc = utf8();
    let printer = NoopResultPrinter {};
    let mut summarizer = LeaderboardSummarizer::new();
    let r = walk_path(
        &root,
        "root",
        Some(&enc),
        0,
        &printer,
        &mut summarizer,
        &ExcludeOptions { include_extensions: &exts, exclude: &excl },
    );
    assert_eq!(r.file_count, 2);
    let entries = summarizer.entries();
    assert_eq!(entries.len(), 2);
    assert_eq!(entries[0].0, "root/a.txt");
    assert_eq!(entries[1].0, "root/sub/c.txt");
    assert_eq!(entries[0].1.lines, 1);
}

#[test]
fn handle_file_entry_tallies_one_file() {
    let f = FileData {
        name: "a.txt".to_string(),
        content: FileContent::Bytes { data: b"x\n\n".to_vec(), detection: None },
    };
    let enc = utf8();
    let printer = NoopResultPrinter {};
    let mut summarizer = NoopSummarizer::new();
    let mut acc = WalkPathResult::new();
    let entry = PrinterEntry::from_path("root/a.txt");
    handle_file_entry(Some(&enc), &f, &entry, 0, &mut acc, &printer, &mut summarizer);
    assert_eq!(acc.file_count, 1);
    assert_eq!(acc.folder_count, 0);
    assert_eq!(acc.line_count.lines, 2);
    assert_eq!(acc.line_count.blank_lines, 1);
    assert_eq!(acc.line_count.bytes, 3);
}

#[test]
fn checked_walk_agrees_with_plain_walk() {
    let root = dir("root", vec![file("a.txt", b"1\n2\n"), FsEntry::Dir(dir("sub", vec![file("b.txt", b"3\n")]))]);
    let (exts, excl) = no_filter();
    let enc = utf8();
    let printer = NoopResultPrinter {};
    let mut summarizer = NoopSummarizer::new();
    let checked = try_walk_path(
        &root,
        "root",
        Some(&enc),
        0,
        &printer,
        &mut summarizer,
        &ExcludeOptions { include_extensions: &exts, exclude: &excl },
    );
    let plain = scan(&root, Some(&enc), &exts, &excl);
    assert_eq!(checked, Some(plain));
}

#[test]
fn totals_and_monoid_helpers() {
    let mut r = WalkPathResult::new();
    r.folder_count = 2;
    r.file_count = 3;
    r.empty_file_count = 1;
    r.error_file_count = 1;
    assert_eq!(r.total_files(), 5);
    assert_eq!(r.total_entries(), 7);
    let zero = WalkPathResult::new();
    assert_eq!(r.add(zero), r);
}
