use linenav::encoding::EncodingId;
use linenav::line_counter::{
    count_lines, detect_encoding, split_lines, u64_to_dec, Confidence, LineCount, LineCountFormat,
};
use linenav::line_processor::{LineProcessor, LineProcessorFactory};
use linenav::text::{basename_of, extension_of};

fn utf8() -> EncodingId {
    EncodingId::from_label("UTF-8").unwrap()
}

#[test]
fn counts_lines_blanks_and_bytes() {
    let data = b"alpha\n\n  \nbeta".to_vec();
    let lc = count_lines("a.txt", &data, &utf8()).unwrap();
    assert_eq!(lc.lines, 4);
    assert_eq!(lc.blank_lines, 2);
    assert_eq!(lc.bytes, 14);
}

#[test]
fn zero_byte_file_has_no_lines() {
    let data = Vec::new();
    let lc = count_lines("a.txt", &data, &utf8()).unwrap();
    assert_eq!(lc.lines, 0);
    assert_eq!(lc.blank_lines, 0);
    assert_eq!(lc.bytes, 0);
}

#[test]
fn crlf_endings_are_stripped() {
    let data = b"a\r\n\r\nb\r".to_vec();
    let lc = count_lines("a.txt", &data, &utf8()).unwrap();
    // "a", "" and the unterminated "b\r": the final carriage return is
    // not a line break on its own.
    assert_eq!(lc.lines, 3);
    assert_eq!(lc.blank_lines, 1);
}

#[test]
fn unicode_whitespace_counts_as_blank() {
    let data = "\u{00A0}\u{2003}\u{3000}\nreal\n".as_bytes().to_vec();
    let lc = count_lines("a.txt", &data, &utf8()).unwrap();
    assert_eq!(lc.lines, 2);
    assert_eq!(lc.blank_lines, 1);
}

#[test]
fn replacement_character_anywhere_is_corruption() {
    let data = "fine\nbad \u{FFFD} here\n".as_bytes().to_vec();
    let err = count_lines("a.txt", &data, &utf8()).unwrap_err();
    assert_eq!(err.encoding, "UTF-8");
}

#[test]
fn invalid_utf8_bytes_are_corruption_under_forced_utf8() {
    let data = b"ok\n\xf0\x28\x8c\x28\n".to_vec();
    assert!(count_lines("a.txt", &data, &utf8()).is_err());
}

#[test]
fn utf16le_decoding_goes_through_the_encoding() {
    // One UTF-16LE line feed: a byte-identity decode would see two
    // characters and a second line.
    let enc = EncodingId::from_label("UTF-16LE").unwrap();
    let data = vec![0x0a, 0x00];
    let lc = count_lines("a.txt", &data, &enc).unwrap();
    assert_eq!(lc.lines, 1);
    assert_eq!(lc.blank_lines, 1);
    assert_eq!(lc.bytes, 2);
}

#[test]
fn utf8_bom_is_sniffed_away() {
    let data = b"\xef\xbb\xbf".to_vec();
    let lc = count_lines("a.txt", &data, &utf8()).unwrap();
    assert_eq!(lc.lines, 0);
    assert_eq!(lc.bytes, 3);
}

#[test]
fn split_lines_matches_bufread_semantics() {
    let lines = split_lines("a\nb\r\n\nc");
    assert_eq!(lines, vec!["a".to_string(), "b".to_string(), "".to_string(), "c".to_string()]);
    assert_eq!(split_lines(""), Vec::<String>::new());
    assert_eq!(split_lines("x\n"), vec!["x".to_string()]);
}

#[test]
fn labels_resolve_to_canonical_encodings() {
    assert_eq!(EncodingId::from_label("latin1").unwrap().name(), "windows-1252");
    assert_eq!(EncodingId::from_label("UTF-8").unwrap().name(), "UTF-8");
    assert!(EncodingId::from_label("no-such-encoding").is_none());
    assert_eq!(EncodingId::utf8().name(), "UTF-8");
}

#[test]
fn detection_keeps_confidence_and_falls_back() {
    let d = detect_encoding("ascii", 9000);
    assert_eq!(d.encoding.name(), "windows-1252");
    assert_eq!(d.confidence, Confidence::Detected(9000));
    let fallback = detect_encoding("no-such-encoding", 123);
    assert_eq!(fallback.encoding.name(), "UTF-8");
    assert_eq!(fallback.confidence, Confidence::Detected(123));
}

#[test]
fn simple_format_is_the_bare_figure() {
    let lc = LineCount { lines: 1234567, blank_lines: 9, bytes: 1024 };
    assert_eq!(lc.as_fmt_string(&LineCountFormat::Simple { show_bytes: false }), "1234567");
}

#[test]
fn simple_format_with_bytes_appends_human_size() {
    let lc = LineCount { lines: 12, blank_lines: 0, bytes: 1024 };
    let s = lc.as_fmt_string(&LineCountFormat::Simple { show_bytes: true });
    assert_eq!(s, format!("12loc {}", humansize::format_size(1024u64, humansize::WINDOWS)));
}

#[test]
fn colour_format_groups_digits() {
    let lc = LineCount { lines: 1234567, blank_lines: 9, bytes: 0 };
    assert_eq!(lc.as_fmt_string(&LineCountFormat::Colour { show_bytes: false }), "1,234,567");
    let boundary = LineCount { lines: 1000, blank_lines: 0, bytes: 0 };
    assert_eq!(boundary.as_fmt_string(&LineCountFormat::Colour { show_bytes: false }), "1,000");
    let small = LineCount { lines: 999, blank_lines: 0, bytes: 0 };
    assert_eq!(small.as_fmt_string(&LineCountFormat::Colour { show_bytes: false }), "999");
}

#[test]
fn colour_format_with_bytes_paints_the_parts() {
    let lc = LineCount { lines: 5, blank_lines: 1, bytes: 0 };
    let s = lc.as_fmt_string(&LineCountFormat::Colour { show_bytes: true });
    let expected = format!(
        "\u{1b}[34m5\u{1b}[0m \u{1b}[2;37m1\u{1b}[0m\u{1b}[2;37m blank\u{1b}[0m \u{1b}[2;37m{}\u{1b}[0m",
        humansize::format_size(0u64, humansize::WINDOWS)
    );
    assert_eq!(s, expected);
}

#[test]
fn decimal_rendering_is_exact() {
    assert_eq!(u64_to_dec(0), "0");
    assert_eq!(u64_to_dec(7), "7");
    assert_eq!(u64_to_dec(100), "100");
    assert_eq!(u64_to_dec(18446744073709551615), "18446744073709551615");
}

#[test]
fn line_count_addition_is_componentwise() {
    let a = LineCount { lines: 1, blank_lines: 2, bytes: 3 };
    let b = LineCount { lines: 10, blank_lines: 20, bytes: 30 };
    let c = a.add(b);
    assert_eq!(c, LineCount { lines: 11, blank_lines: 22, bytes: 33 });
    let mut d = LineCount::default();
    d.add_assign(a);
    assert_eq!(d, a);
}

#[test]
fn factory_built_classifier_judges_lines() {
    let mut p = LineProcessorFactory::create("notes.txt");
    let enc = EncodingId::utf8();
    let counted = p.process_line("words here", &enc).unwrap();
    assert_eq!(counted, LineCount { lines: 1, blank_lines: 0, bytes: 0 });
    let blank = p.process_line("\t ", &enc).unwrap();
    assert_eq!(blank, LineCount { lines: 1, blank_lines: 1, bytes: 0 });
    let err = p.process_line("u\u{FFFD}h", &enc).unwrap_err();
    assert_eq!(err.encoding, "UTF-8");
}

#[test]
fn extensions_follow_path_rules() {
    assert_eq!(extension_of("foo.tar.gz"), Some("gz".to_string()));
    assert_eq!(extension_of("foo."), Some("".to_string()));
    assert_eq!(extension_of(".bashrc"), None);
    assert_eq!(extension_of("noext"), None);
    assert_eq!(basename_of("a/b/c.txt"), "c.txt");
    assert_eq!(basename_of("plain"), "plain");
}
