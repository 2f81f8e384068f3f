use linenav::line_counter::LineCount;
use linenav::summarizer::default_summarizer::DefaultSummarizer;
use linenav::summarizer::leaderboard_summarizer::LeaderboardSummarizer;
use linenav::summarizer::Summarizer;

fn lc(lines: u64, blank_lines: u64, bytes: u64) -> LineCount {
    LineCount { lines, blank_lines, bytes }
}

#[test]
fn groups_by_extension_and_sums() {
    let mut s = DefaultSummarizer::new();
    s.append_entry("src/a.rs", lc(2, 0, 10));
    s.append_entry("src/b.rs", lc(3, 1, 20));
    s.append_entry("docs/c.txt", lc(1, 0, 5));
    let rows = s.rows();
    assert_eq!(rows.len(), 2);
    assert_eq!(rows[0].0, "rs");
    assert_eq!(rows[0].1, lc(5, 1, 30));
    assert_eq!(rows[0].2, 2);
    assert_eq!(rows[1].0, "txt");
    assert_eq!(rows[1].1, lc(1, 0, 5));
    assert_eq!(rows[1].2, 1);
}

#[test]
fn extensionless_files_group_under_their_name() {
    let mut s = DefaultSummarizer::new();
    s.append_entry("proj/Makefile", lc(4, 0, 40));
    s.append_entry("other/Makefile", lc(6, 1, 60));
    let rows = s.rows();
    assert_eq!(rows.len(), 1);
    assert_eq!(rows[0].0, "Makefile");
    assert_eq!(rows[0].1, lc(10, 1, 100));
    assert_eq!(rows[0].2, 2);
}

#[test]
fn ranked_rows_come_largest_first() {
    let mut s = DefaultSummarizer::new();
    s.append_entry("a.rs", lc(2, 0, 1));
    s.append_entry("b.txt", lc(9, 0, 1));
    s.append_entry("c.md", lc(5, 0, 1));
    let ranked = s.ranked_rows();
    assert_eq!(ranked.len(), 3);
    assert_eq!(ranked[0].0, "txt");
    assert_eq!(ranked[1].0, "md");
    assert_eq!(ranked[2].0, "rs");
}

#[test]
fn limit_is_remembered() {
    let mut s = DefaultSummarizer::new();
    assert_eq!(s.limit(), 0);
    s.set_limit(7);
    assert_eq!(s.limit(), 7);
}

#[test]
fn leaderboard_remembers_and_ranks() {
    let mut s = LeaderboardSummarizer::new();
    s.append_entry("a.txt", lc(3, 0, 1));
    s.append_entry("b.txt", lc(11, 0, 1));
    s.append_entry("c.txt", lc(7, 0, 1));
    let entries = s.entries();
    assert_eq!(entries.len(), 3);
    assert_eq!(entries[0].0, "a.txt");
    let ranked = s.ranked();
    assert_eq!(ranked[0].0, "b.txt");
    assert_eq!(ranked[1].0, "c.txt");
    assert_eq!(ranked[2].0, "a.txt");
    assert_eq!(ranked[0].1.lines, 11);
}
