pub mod walk_path_result;

use crate::encoding::{decodable_len, EncodingId};
use crate::fs_tree::{
    children_decodable, dir_decodable, dir_height, file_decodable, lemma_children_decodable_at,
    lemma_children_height_at, lemma_children_height_nonneg, Detection, DirData, FileContent,
    FileData, FsEntry,
};
use crate::line_counter::{
    count_lines, detect_encoding, lcv_zero, lemma_blank_total_bounds, spec_any_corrupt,
    spec_blank_total, spec_file_lines, Confidence, LineCountView,
};
use crate::result_printer::{PrinterEntry, ResultPrinter};
use crate::summarizer::Summarizer;
use crate::text::{extension_of, join_path, spec_extension};
use vstd::prelude::*;
use walk_path_result::{
    lemma_wv_add_associates, wv_add, wv_fits, wv_zero, WalkPathResult, WalkView,
};

verus! {

/// Mathematical view of the exclusion filters: two name lists.
pub ghost struct OptsView {
    pub include_extensions: Seq<Seq<char>>,
    pub exclude: Seq<Seq<char>>,
}

/// The caller-owned exclusion filters: extensions to include (empty means
/// no filter) and literal names to exclude (empty means none).
pub struct ExcludeOptions<'a> {
    pub include_extensions: &'a Vec<String>,
    pub exclude: &'a Vec<String>,
}

impl<'a> View for ExcludeOptions<'a> {
    type V = OptsView;

    open spec fn view(&self) -> OptsView {
        OptsView {
            include_extensions: self.include_extensions.deep_view(),
            exclude: self.exclude.deep_view(),
        }
    }
}

/// Whether the name filter drops an entry of this name.
pub open spec fn name_excluded(opts: OptsView, name: Seq<char>) -> bool {
    opts.exclude.contains(name)
}

/// Whether the extension filter keeps a file of this name: it keeps
/// everything when no extensions were named, and never drops a file
/// without an extension.
pub open spec fn file_ext_included(opts: OptsView, name: Seq<char>) -> bool {
    ||| opts.include_extensions.len() == 0
    ||| spec_extension(name) is None
    ||| opts.include_extensions.contains(spec_extension(name)->0)
}

/// Whether a file of this name survives both filters.
pub open spec fn file_included(opts: OptsView, name: Seq<char>) -> bool {
    !name_excluded(opts, name) && file_ext_included(opts, name)
}

/// Whether a directory of this name is descended into: only the name
/// filter applies to directories, never the extension filter.
pub open spec fn dir_included(opts: OptsView, name: Seq<char>) -> bool {
    !name_excluded(opts, name)
}

/// The literal name of an entry.
pub open spec fn entry_name(e: FsEntry) -> Seq<char> {
    match e {
        FsEntry::File(f) => f.name@,
        FsEntry::Dir(d) => d.name@,
    }
}

/// The forced encoding's canonical name, if one was forced.
pub open spec fn enc_view(encoding: Option<&EncodingId>) -> Option<Seq<char>> {
    match encoding {
        Some(e) => Some(e@),
        None => None,
    }
}

/// The canonical name of the encoding one file is read with: the forced
/// one when the operator forced one; otherwise what the detector's label
/// resolves to, UTF-8 when nothing was detected.
pub open spec fn chosen_encoding_name(
    forced: Option<Seq<char>>,
    detection: Option<Detection>,
) -> Seq<char> {
    match forced {
        Some(name) => name,
        None => match detection {
            Some(det) => crate::encoding::resolved_label_name(det.label@),
            None => "UTF-8"@,
        },
    }
}

/// The line-count view of a split file: its lines, its blank lines, its
/// byte size.
pub open spec fn lcv_of(ls: Seq<Seq<char>>, nbytes: int) -> LineCountView {
    LineCountView { lines: ls.len() as int, blank_lines: spec_blank_total(ls), bytes: nbytes }
}

/// One directory node's own tally.
pub open spec fn wv_folder() -> WalkView {
    WalkView {
        line_count: lcv_zero(),
        folder_count: 1,
        file_count: 0,
        empty_file_count: 0,
        error_file_count: 0,
    }
}

/// One invalid file's tally: nothing of its content survives.
pub open spec fn wv_error_file() -> WalkView {
    WalkView {
        line_count: lcv_zero(),
        folder_count: 0,
        file_count: 0,
        empty_file_count: 0,
        error_file_count: 1,
    }
}

/// One empty file's tally: its byte size still counts.
pub open spec fn wv_empty_file(lc: LineCountView) -> WalkView {
    WalkView {
        line_count: lc,
        folder_count: 0,
        file_count: 0,
        empty_file_count: 1,
        error_file_count: 0,
    }
}

/// One counted file's tally.
pub open spec fn wv_counted_file(lc: LineCountView) -> WalkView {
    WalkView {
        line_count: lc,
        folder_count: 0,
        file_count: 1,
        empty_file_count: 0,
        error_file_count: 0,
    }
}

/// What one readable file's bytes contribute under the encoding of
/// canonical name `enc_name`: corruption anywhere makes it invalid and
/// discards its count; no lines make it empty; anything else is counted.
pub open spec fn bytes_walk(data: Seq<u8>, enc_name: Seq<char>) -> WalkView {
    let ls = spec_file_lines(enc_name, data);
    if spec_any_corrupt(ls) {
        wv_error_file()
    } else if ls.len() == 0 {
        wv_empty_file(lcv_of(ls, data.len() as int))
    } else {
        wv_counted_file(lcv_of(ls, data.len() as int))
    }
}

/// What one file contributes to the tallies: an unreadable one is
/// invalid, a readable one is judged by its decoded lines.
pub open spec fn file_walk(f: FileData, forced: Option<Seq<char>>) -> WalkView {
    match f.content {
        FileContent::Unreadable => wv_error_file(),
        FileContent::Bytes { data, detection } => bytes_walk(
            data@,
            chosen_encoding_name(forced, detection),
        ),
    }
}

/// What one entry contributes: nothing when a filter drops it.
pub open spec fn entry_walk(e: FsEntry, forced: Option<Seq<char>>, opts: OptsView) -> WalkView
    decreases e,
{
    match e {
        FsEntry::File(f) => if file_included(opts, f.name@) {
            file_walk(f, forced)
        } else {
            wv_zero()
        },
        FsEntry::Dir(d) => if dir_included(opts, d.name@) {
            dir_walk(d, forced, opts)
        } else {
            wv_zero()
        },
    }
}

/// What scanning one directory yields: the node itself, plus whatever its
/// children contribute.
pub open spec fn dir_walk(d: DirData, forced: Option<Seq<char>>, opts: OptsView) -> WalkView
    decreases d,
{
    wv_add(wv_folder(), children_walk(d.children@, forced, opts))
}

/// What a list of sibling entries contributes, folded left to right.
pub open spec fn children_walk(
    cs: Seq<FsEntry>,
    forced: Option<Seq<char>>,
    opts: OptsView,
) -> WalkView
    decreases cs,
{
    if cs.len() == 0 {
        wv_zero()
    } else {
        wv_add(children_walk(cs.drop_last(), forced, opts), entry_walk(cs.last(), forced, opts))
    }
}

/// Every component of the view is non-negative.
pub open spec fn wv_nonneg(w: WalkView) -> bool {
    &&& w.line_count.lines >= 0
    &&& w.line_count.blank_lines >= 0
    &&& w.line_count.bytes >= 0
    &&& w.folder_count >= 0
    &&& w.file_count >= 0
    &&& w.empty_file_count >= 0
    &&& w.error_file_count >= 0
}

/// No file contributes a negative tally.
pub proof fn lemma_file_walk_nonneg(f: FileData, forced: Option<Seq<char>>)
    ensures
        wv_nonneg(file_walk(f, forced)),
{
    match f.content {
        FileContent::Unreadable => {},
        FileContent::Bytes { data, detection } => {
            lemma_blank_total_bounds(
                spec_file_lines(chosen_encoding_name(forced, detection), data@),
            );
        },
    }
}

/// No entry contributes a negative tally.
pub proof fn lemma_entry_walk_nonneg(e: FsEntry, forced: Option<Seq<char>>, opts: OptsView)
    ensures
        wv_nonneg(entry_walk(e, forced, opts)),
    decreases e,
{
    match e {
        FsEntry::File(f) => {
            lemma_file_walk_nonneg(f, forced);
        },
        FsEntry::Dir(d) => {
            lemma_children_walk_nonneg(d.children@, forced, opts);
        },
    }
}

/// No list of entries contributes a negative tally.
pub proof fn lemma_children_walk_nonneg(cs: Seq<FsEntry>, forced: Option<Seq<char>>, opts: OptsView)
    ensures
        wv_nonneg(children_walk(cs, forced, opts)),
    decreases cs,
{
    if cs.len() > 0 {
        lemma_children_walk_nonneg(cs.drop_last(), forced, opts);
        lemma_entry_walk_nonneg(cs.last(), forced, opts);
    }
}

/// The fold over siblings splits at any concatenation: scanning two
/// stretches of siblings and adding the results equals scanning them as
/// one list.
pub proof fn lemma_children_walk_concat(
    a: Seq<FsEntry>,
    b: Seq<FsEntry>,
    forced: Option<Seq<char>>,
    opts: OptsView,
)
    ensures
        children_walk(a + b, forced, opts) == wv_add(
            children_walk(a, forced, opts),
            children_walk(b, forced, opts),
        ),
    decreases b.len(),
{
    if b.len() == 0 {
        assert(a + b =~= a);
    } else {
        assert((a + b).drop_last() =~= a + b.drop_last());
        assert((a + b).last() == b.last());
        lemma_children_walk_concat(a, b.drop_last(), forced, opts);
        lemma_wv_add_associates(
            children_walk(a, forced, opts),
            children_walk(b.drop_last(), forced, opts),
            entry_walk(b.last(), forced, opts),
        );
    }
}

/// One more sibling extends the fold by its own contribution.
pub proof fn lemma_children_walk_take_step(
    cs: Seq<FsEntry>,
    i: int,
    forced: Option<Seq<char>>,
    opts: OptsView,
)
    requires
        0 <= i < cs.len(),
    ensures
        children_walk(cs.take(i + 1), forced, opts) == wv_add(
            children_walk(cs.take(i), forced, opts),
            entry_walk(cs[i], forced, opts),
        ),
{
    assert(cs.take(i + 1).drop_last() =~= cs.take(i));
    assert(cs.take(i + 1).last() == cs[i]);
}

/// The fold splits at any position.
pub proof fn lemma_children_walk_split(
    cs: Seq<FsEntry>,
    i: int,
    forced: Option<Seq<char>>,
    opts: OptsView,
)
    requires
        0 <= i <= cs.len(),
    ensures
        children_walk(cs, forced, opts) == wv_add(
            children_walk(cs.take(i), forced, opts),
            children_walk(cs.skip(i), forced, opts),
        ),
{
    assert(cs =~= cs.take(i) + cs.skip(i));
    lemma_children_walk_concat(cs.take(i), cs.skip(i), forced, opts);
}

/// Whether `list` holds a string of this content.
fn contains_string(list: &Vec<String>, x: &String) -> (r: bool)
    ensures
        r == list.deep_view().contains(x@),
{
    let n = list.len();
    let mut i: usize = 0;
    while i < n
        invariant
            0 <= i <= n,
            n == list@.len(),
            forall|j: int| 0 <= j < i ==> list@[j]@ != x@,
        decreases n - i,
    {
        if list[i] == *x {
            proof {
                assert(list.deep_view()[i as int] == list@[i as int]@);
            }
            return true;
        }
        i = i + 1;
    }
    proof {
        assert forall|j: int| 0 <= j < list.deep_view().len() implies list.deep_view()[j]
            != x@ by {
            assert(list.deep_view()[j] == list@[j]@);
        }
    }
    false
}

/// Whether the extension filter keeps a file of this name.
fn ext_passes(opts: &ExcludeOptions<'_>, name: &String) -> (r: bool)
    ensures
        r == file_ext_included(opts@, name@),
{
    if opts.include_extensions.len() == 0 {
        true
    } else {
        match extension_of(name.as_str()) {
            None => true,
            Some(ext) => contains_string(opts.include_extensions, &ext),
        }
    }
}

/// Whether two aggregates can be added without leaving the machine
/// fields, decided at run time.
fn fits_to_add(a: &WalkPathResult, b: &WalkPathResult) -> (r: bool)
    ensures
        r == wv_fits(wv_add(a@, b@)),
{
    a.line_count.lines <= u64::MAX - b.line_count.lines && a.line_count.blank_lines <= u64::MAX
        - b.line_count.blank_lines && a.line_count.bytes <= u64::MAX - b.line_count.bytes
        && a.folder_count <= usize::MAX - b.folder_count && a.file_count <= usize::MAX
        - b.file_count && a.empty_file_count <= usize::MAX - b.empty_file_count
        && a.error_file_count <= usize::MAX - b.error_file_count
}

/// Counts one readable file's bytes under the encoding settled for it
/// and, when the tallies stay in range, folds the outcome in and
/// narrates it; out of range, it reports so and changes nothing.
fn try_tally_file_bytes<P: ResultPrinter, S: Summarizer>(
    name: &String,
    data: &Vec<u8>,
    used: &EncodingId,
    confidence: Confidence,
    entry: &PrinterEntry<'_>,
    depth: i32,
    walk_result: &mut WalkPathResult,
    printer: &P,
    summarizer: &mut S,
) -> (r: bool)
    requires
        decodable_len(data@.len() as int),
    ensures
        r == wv_fits(wv_add(old(walk_result)@, bytes_walk(data@, used@))),
        r ==> final(walk_result)@ == wv_add(old(walk_result)@, bytes_walk(data@, used@)),
        !r ==> *final(walk_result) == *old(walk_result),
{
    proof {
        lemma_blank_total_bounds(spec_file_lines(used@, data@));
    }
    match count_lines(name.as_str(), data, used) {
        Ok(lines) => {
            let counts_fit = walk_result.line_count.lines <= u64::MAX - lines.lines
                && walk_result.line_count.blank_lines <= u64::MAX - lines.blank_lines
                && walk_result.line_count.bytes <= u64::MAX - lines.bytes;
            if lines.lines == 0 {
                if counts_fit && walk_result.empty_file_count < usize::MAX {
                    walk_result.line_count.add_assign(lines);
                    printer.print_empty_file(entry, -1, used, depth, confidence);
                    walk_result.empty_file_count = walk_result.empty_file_count + 1;
                    true
                } else {
                    false
                }
            } else {
                if counts_fit && walk_result.file_count < usize::MAX {
                    walk_result.line_count.add_assign(lines);
                    printer.print_file(entry, lines, -1, used, depth, confidence);
                    summarizer.append_entry(entry.path, lines);
                    walk_result.file_count = walk_result.file_count + 1;
                    true
                } else {
                    false
                }
            }
        },
        Err(_) => {
            if walk_result.error_file_count < usize::MAX {
                printer.print_error_file(entry, -1, used, depth, confidence);
                walk_result.error_file_count = walk_result.error_file_count + 1;
                true
            } else {
                false
            }
        },
    }
}

/// Settles the encoding for one file and, when the tallies stay in
/// range, counts it, folds the outcome in and narrates it; out of
/// range, it reports so and changes nothing. A per-file failure never
/// escapes.
pub fn try_handle_file_entry<P: ResultPrinter, S: Summarizer>(
    encoding: Option<&EncodingId>,
    file: &FileData,
    entry: &PrinterEntry<'_>,
    depth: i32,
    walk_result: &mut WalkPathResult,
    printer: &P,
    summarizer: &mut S,
) -> (r: bool)
    requires
        file_decodable(*file),
    ensures
        r == wv_fits(wv_add(old(walk_result)@, file_walk(*file, enc_view(encoding)))),
        r ==> final(walk_result)@ == wv_add(
            old(walk_result)@,
            file_walk(*file, enc_view(encoding)),
        ),
        !r ==> *final(walk_result) == *old(walk_result),
{
    match &file.content {
        FileContent::Bytes { data, detection } => {
            match encoding {
                Some(e) => try_tally_file_bytes(
                    &file.name,
                    data,
                    e,
                    Confidence::Forced,
                    entry,
                    depth,
                    walk_result,
                    printer,
                    summarizer,
                ),
                None => {
                    match detection {
                        Some(det) => {
                            let resolved = detect_encoding(det.label.as_str(), det.confidence);
                            try_tally_file_bytes(
                                &file.name,
                                data,
                                &resolved.encoding,
                                resolved.confidence,
                                entry,
                                depth,
                                walk_result,
                                printer,
                                summarizer,
                            )
                        },
                        None => {
                            let fallback = EncodingId::utf8();
                            try_tally_file_bytes(
                                &file.name,
                                data,
                                &fallback,
                                Confidence::Detected(0),
                                entry,
                                depth,
                                walk_result,
                                printer,
                                summarizer,
                            )
                        },
                    }
                },
            }
        },
        FileContent::Unreadable => {
            if walk_result.error_file_count < usize::MAX {
                // The narration shows the forced encoding, or UTF-8 where
                // none was settled before the file turned out unreadable.
                match encoding {
                    Some(e) => {
                        printer.print_error_file(entry, -1, e, depth, Confidence::Forced);
                    },
                    None => {
                        let fallback = EncodingId::utf8();
                        printer.print_error_file(
                            entry,
                            -1,
                            &fallback,
                            depth,
                            Confidence::Detected(0),
                        );
                    },
                }
                walk_result.error_file_count = walk_result.error_file_count + 1;
                true
            } else {
                false
            }
        },
    }
}

/// Settles the encoding for one file, counts it, folds the outcome into
/// the running tallies, and narrates it; a per-file failure never
/// escapes.
pub fn handle_file_entry<P: ResultPrinter, S: Summarizer>(
    encoding: Option<&EncodingId>,
    file: &FileData,
    entry: &PrinterEntry<'_>,
    depth: i32,
    walk_result: &mut WalkPathResult,
    printer: &P,
    summarizer: &mut S,
)
    requires
        file_decodable(*file),
        wv_fits(wv_add(old(walk_result)@, file_walk(*file, enc_view(encoding)))),
    ensures
        final(walk_result)@ == wv_add(old(walk_result)@, file_walk(*file, enc_view(encoding))),
{
    let ok = try_handle_file_entry(encoding, file, entry, depth, walk_result, printer, summarizer);
    proof {
        assert(ok);
    }
}

/// Scans one directory depth-first: filters its children, counts each
/// surviving file, recurses into each surviving directory, and folds
/// everything into one aggregate, narrating as it goes. `None` exactly
/// when the tree's tallies would overflow a machine field; the narration
/// up to that point has then already been fired.
pub fn try_walk_path<P: ResultPrinter, S: Summarizer>(
    dir: &DirData,
    path: &str,
    encoding: Option<&EncodingId>,
    depth: i32,
    printer: &P,
    summarizer: &mut S,
    exclude_options: &ExcludeOptions<'_>,
) -> (r: Option<WalkPathResult>)
    requires
        dir_decodable(*dir),
        0 <= depth,
        depth + dir_height(*dir) <= i32::MAX,
    ensures
        r is Some <==> wv_fits(dir_walk(*dir, enc_view(encoding), exclude_options@)),
        r matches Some(w) ==> w@ == dir_walk(*dir, enc_view(encoding), exclude_options@),
    decreases *dir,
{
    let ghost forced = enc_view(encoding);
    let ghost opts = exclude_options@;
    let ghost cs = dir.children@;
    let n = dir.children.len();
    if depth == 0 {
        printer.print_header(path, n);
    } else {
        printer.print_folder(&PrinterEntry::from_path(path), n, depth - 1);
    }
    let mut acc = WalkPathResult::new();
    acc.folder_count = 1;
    proof {
        assert(cs.take(0) =~= Seq::<FsEntry>::empty());
        assert(acc@ == wv_add(wv_folder(), children_walk(cs.take(0), forced, opts)));
    }
    let mut i: usize = 0;
    while i < n
        invariant
            0 <= i <= n,
            n == dir.children@.len(),
            cs == dir.children@,
            forced == enc_view(encoding),
            opts == exclude_options@,
            dir_decodable(*dir),
            0 <= depth,
            depth + dir_height(*dir) <= i32::MAX,
            acc@ == wv_add(wv_folder(), children_walk(cs.take(i as int), forced, opts)),
        decreases n - i,
    {
        proof {
            lemma_children_walk_take_step(cs, i as int, forced, opts);
            lemma_children_walk_split(cs, i as int + 1, forced, opts);
            lemma_children_walk_nonneg(cs.skip(i as int + 1), forced, opts);
            lemma_children_walk_nonneg(cs.take(i as int), forced, opts);
            lemma_entry_walk_nonneg(cs[i as int], forced, opts);
            lemma_children_decodable_at(cs, i as int);
            lemma_wv_add_associates(
                wv_folder(),
                children_walk(cs.take(i as int), forced, opts),
                entry_walk(cs[i as int], forced, opts),
            );
        }
        let child = &dir.children[i];
        match child {
            FsEntry::File(f) => {
                if !contains_string(exclude_options.exclude, &f.name) && ext_passes(
                    exclude_options,
                    &f.name,
                ) {
                    let child_path = join_path(path, f.name.as_str());
                    let entry = PrinterEntry { name: f.name.clone(), path: child_path.as_str() };
                    let ok = try_handle_file_entry(
                        encoding,
                        f,
                        &entry,
                        depth,
                        &mut acc,
                        printer,
                        summarizer,
                    );
                    if !ok {
                        return None;
                    }
                } else {
                    proof {
                        assert(entry_walk(cs[i as int], forced, opts) == wv_zero());
                    }
                }
            },
            FsEntry::Dir(dd) => {
                if !contains_string(exclude_options.exclude, &dd.name) {
                    proof {
                        lemma_children_height_at(cs, i as int);
                        lemma_children_height_nonneg(dd.children@);
                    }
                    let child_path = join_path(path, dd.name.as_str());
                    let sub = match try_walk_path(
                        dd,
                        child_path.as_str(),
                        encoding,
                        depth + 1,
                        printer,
                        summarizer,
                        exclude_options,
                    ) {
                        Some(sub) => sub,
                        None => {
                            return None;
                        },
                    };
                    printer.print_folder_total(sub.line_count, depth + 1);
                    if !fits_to_add(&acc, &sub) {
                        return None;
                    }
                    acc.add_assign(sub);
                } else {
                    proof {
                        assert(entry_walk(cs[i as int], forced, opts) == wv_zero());
                    }
                }
            },
        }
        i = i + 1;
    }
    proof {
        assert(cs.take(n as int) =~= cs);
    }
    Some(acc)
}

/// Scans one directory depth-first: filters its children, counts each
/// surviving file, recurses into each surviving directory, and folds
/// everything into one aggregate, narrating as it goes.
pub fn walk_path<P: ResultPrinter, S: Summarizer>(
    dir: &DirData,
    path: &str,
    encoding: Option<&EncodingId>,
    depth: i32,
    printer: &P,
    summarizer: &mut S,
    exclude_options: &ExcludeOptions<'_>,
) -> (r: WalkPathResult)
    requires
        dir_decodable(*dir),
        wv_fits(dir_walk(*dir, enc_view(encoding), exclude_options@)),
        0 <= depth,
        depth + dir_height(*dir) <= i32::MAX,
    ensures
        r@ == dir_walk(*dir, enc_view(encoding), exclude_options@),
{
    let r = try_walk_path(dir, path, encoding, depth, printer, summarizer, exclude_options);
    proof {
        assert(r is Some);
    }
    r.unwrap()
}

/// Scans a whole subtree in one flattened pass: files are filtered and
/// counted exactly as the structured walk counts them, and each
/// surviving directory below the root is a bare tally increment; no
/// per-directory narration is fired and depth is not tracked. The
/// aggregate equals the structured walk's; `None` exactly when it would
/// overflow a machine field.
pub fn try_simple_walk_path<P: ResultPrinter, S: Summarizer>(
    dir: &DirData,
    path: &str,
    encoding: Option<&EncodingId>,
    printer: &P,
    summarizer: &mut S,
    exclude_options: &ExcludeOptions<'_>,
) -> (r: Option<WalkPathResult>)
    requires
        dir_decodable(*dir),
    ensures
        r is Some <==> wv_fits(dir_walk(*dir, enc_view(encoding), exclude_options@)),
        r matches Some(w) ==> w@ == dir_walk(*dir, enc_view(encoding), exclude_options@),
{
    let n = dir.children.len();
    printer.print_header(path, n);
    try_simple_walk_rec(dir, path, encoding, printer, summarizer, exclude_options)
}

/// The flattened pass behind `try_simple_walk_path`: the same filters
/// and tallies, none of the per-directory narration.
fn try_simple_walk_rec<P: ResultPrinter, S: Summarizer>(
    dir: &DirData,
    path: &str,
    encoding: Option<&EncodingId>,
    printer: &P,
    summarizer: &mut S,
    exclude_options: &ExcludeOptions<'_>,
) -> (r: Option<WalkPathResult>)
    requires
        dir_decodable(*dir),
    ensures
        r is Some <==> wv_fits(dir_walk(*dir, enc_view(encoding), exclude_options@)),
        r matches Some(w) ==> w@ == dir_walk(*dir, enc_view(encoding), exclude_options@),
    decreases *dir,
{
    let ghost forced = enc_view(encoding);
    let ghost opts = exclude_options@;
    let ghost cs = dir.children@;
    let n = dir.children.len();
    let mut acc = WalkPathResult::new();
    acc.folder_count = 1;
    proof {
        assert(cs.take(0) =~= Seq::<FsEntry>::empty());
        assert(acc@ == wv_add(wv_folder(), children_walk(cs.take(0), forced, opts)));
    }
    let mut i: usize = 0;
    while i < n
        invariant
            0 <= i <= n,
            n == dir.children@.len(),
            cs == dir.children@,
            forced == enc_view(encoding),
            opts == exclude_options@,
            dir_decodable(*dir),
            acc@ == wv_add(wv_folder(), children_walk(cs.take(i as int), forced, opts)),
        decreases n - i,
    {
        proof {
            lemma_children_walk_take_step(cs, i as int, forced, opts);
            lemma_children_walk_split(cs, i as int + 1, forced, opts);
            lemma_children_walk_nonneg(cs.skip(i as int + 1), forced, opts);
            lemma_children_walk_nonneg(cs.take(i as int), forced, opts);
            lemma_entry_walk_nonneg(cs[i as int], forced, opts);
            lemma_children_decodable_at(cs, i as int);
            lemma_wv_add_associates(
                wv_folder(),
                children_walk(cs.take(i as int), forced, opts),
                entry_walk(cs[i as int], forced, opts),
            );
        }
        let child = &dir.children[i];
        match child {
            FsEntry::File(f) => {
                if !contains_string(exclude_options.exclude, &f.name) && ext_passes(
                    exclude_options,
                    &f.name,
                ) {
                    let child_path = join_path(path, f.name.as_str());
                    let entry = PrinterEntry { name: f.name.clone(), path: child_path.as_str() };
                    let ok = try_handle_file_entry(
                        encoding,
                        f,
                        &entry,
                        -1,
                        &mut acc,
                        printer,
                        summarizer,
                    );
                    if !ok {
                        return None;
                    }
                } else {
                    proof {
                        assert(entry_walk(cs[i as int], forced, opts) == wv_zero());
                    }
                }
            },
            FsEntry::Dir(dd) => {
                if !contains_string(exclude_options.exclude, &dd.name) {
                    let child_path = join_path(path, dd.name.as_str());
                    let sub = match try_simple_walk_rec(
                        dd,
                        child_path.as_str(),
                        encoding,
                        printer,
                        summarizer,
                        exclude_options,
                    ) {
                        Some(sub) => sub,
                        None => {
                            return None;
                        },
                    };
                    if !fits_to_add(&acc, &sub) {
                        return None;
                    }
                    acc.add_assign(sub);
                } else {
                    proof {
                        assert(entry_walk(cs[i as int], forced, opts) == wv_zero());
                    }
                }
            },
        }
        i = i + 1;
    }
    proof {
        assert(cs.take(n as int) =~= cs);
    }
    Some(acc)
}

/// Scans a whole subtree in one flattened pass: files are filtered and
/// counted exactly as the structured walk counts them, and each surviving
/// directory below the root is a bare tally increment; no per-directory
/// narration is fired and depth is not tracked. The aggregate equals the
/// structured walk's.
pub fn simple_walk_path<P: ResultPrinter, S: Summarizer>(
    dir: &DirData,
    path: &str,
    encoding: Option<&EncodingId>,
    printer: &P,
    summarizer: &mut S,
    exclude_options: &ExcludeOptions<'_>,
) -> (r: WalkPathResult)
    requires
        dir_decodable(*dir),
        wv_fits(dir_walk(*dir, enc_view(encoding), exclude_options@)),
    ensures
        r@ == dir_walk(*dir, enc_view(encoding), exclude_options@),
{
    let r = try_simple_walk_path(dir, path, encoding, printer, summarizer, exclude_options);
    proof {
        assert(r is Some);
    }
    r.unwrap()
}


/// How many directories a scan of this directory visits: the node itself
/// and every included directory below it.
pub open spec fn dir_visited_dirs(d: DirData, opts: OptsView) -> int
    decreases d,
{
    1 + children_visited_dirs(d.children@, opts)
}

/// How many directories the scans of these entries visit.
pub open spec fn children_visited_dirs(cs: Seq<FsEntry>, opts: OptsView) -> int
    decreases cs,
{
    if cs.len() == 0 {
        0
    } else {
        children_visited_dirs(cs.drop_last(), opts) + entry_visited_dirs(cs.last(), opts)
    }
}

/// How many directories the scan of this entry visits: none for a file,
/// none for a directory the name filter drops.
pub open spec fn entry_visited_dirs(e: FsEntry, opts: OptsView) -> int
    decreases e,
{
    match e {
        FsEntry::File(_) => 0,
        FsEntry::Dir(d) => if dir_included(opts, d.name@) {
            dir_visited_dirs(d, opts)
        } else {
            0
        },
    }
}

/// The aggregate's folder count is exactly the number of directories the
/// scan visits, the root included, whatever the nesting depth, the
/// filters and the encoding choice.
pub proof fn lemma_folder_count_is_visited_dirs(
    d: DirData,
    forced: Option<Seq<char>>,
    opts: OptsView,
)
    ensures
        dir_walk(d, forced, opts).folder_count == dir_visited_dirs(d, opts),
    decreases d,
{
    lemma_children_folder_count(d.children@, forced, opts);
}

/// The children's folded folder count is the number of directories their
/// scans visit.
pub proof fn lemma_children_folder_count(
    cs: Seq<FsEntry>,
    forced: Option<Seq<char>>,
    opts: OptsView,
)
    ensures
        children_walk(cs, forced, opts).folder_count == children_visited_dirs(cs, opts),
    decreases cs,
{
    if cs.len() > 0 {
        lemma_children_folder_count(cs.drop_last(), forced, opts);
        lemma_entry_folder_count(cs.last(), forced, opts);
    }
}

/// One entry's folder contribution is the number of directories its scan
/// visits.
pub proof fn lemma_entry_folder_count(e: FsEntry, forced: Option<Seq<char>>, opts: OptsView)
    ensures
        entry_walk(e, forced, opts).folder_count == entry_visited_dirs(e, opts),
    decreases e,
{
    match e {
        FsEntry::File(f) => {
            if file_included(opts, f.name@) {
                lemma_file_walk_nonneg(f, forced);
                assert(file_walk(f, forced).folder_count == 0);
            }
        },
        FsEntry::Dir(d) => {
            if dir_included(opts, d.name@) {
                lemma_folder_count_is_visited_dirs(d, forced, opts);
            }
        },
    }
}

/// How many files the filters accept at or below this directory.
pub open spec fn dir_included_files(d: DirData, opts: OptsView) -> int
    decreases d,
{
    children_included_files(d.children@, opts)
}

/// How many files the filters accept among and below these entries.
pub open spec fn children_included_files(cs: Seq<FsEntry>, opts: OptsView) -> int
    decreases cs,
{
    if cs.len() == 0 {
        0
    } else {
        children_included_files(cs.drop_last(), opts) + entry_included_files(cs.last(), opts)
    }
}

/// How many files the filters accept at or below this entry.
pub open spec fn entry_included_files(e: FsEntry, opts: OptsView) -> int
    decreases e,
{
    match e {
        FsEntry::File(f) => if file_included(opts, f.name@) {
            1
        } else {
            0
        },
        FsEntry::Dir(d) => if dir_included(opts, d.name@) {
            dir_included_files(d, opts)
        } else {
            0
        },
    }
}

/// Every file the filters accept lands in exactly one of the three file
/// tallies: counted, empty or invalid sum to the accepted files.
pub proof fn lemma_file_tallies_are_included_files(
    d: DirData,
    forced: Option<Seq<char>>,
    opts: OptsView,
)
    ensures
        dir_walk(d, forced, opts).file_count + dir_walk(d, forced, opts).empty_file_count
            + dir_walk(d, forced, opts).error_file_count == dir_included_files(d, opts),
    decreases d,
{
    lemma_children_file_tallies(d.children@, forced, opts);
}

/// The children's folded file tallies sum to their accepted files.
pub proof fn lemma_children_file_tallies(
    cs: Seq<FsEntry>,
    forced: Option<Seq<char>>,
    opts: OptsView,
)
    ensures
        children_walk(cs, forced, opts).file_count + children_walk(
            cs,
            forced,
            opts,
        ).empty_file_count + children_walk(cs, forced, opts).error_file_count
            == children_included_files(cs, opts),
    decreases cs,
{
    if cs.len() > 0 {
        lemma_children_file_tallies(cs.drop_last(), forced, opts);
        lemma_entry_file_tallies(cs.last(), forced, opts);
    }
}

/// One entry's file tallies sum to its accepted files.
pub proof fn lemma_entry_file_tallies(e: FsEntry, forced: Option<Seq<char>>, opts: OptsView)
    ensures
        entry_walk(e, forced, opts).file_count + entry_walk(e, forced, opts).empty_file_count
            + entry_walk(e, forced, opts).error_file_count == entry_included_files(e, opts),
    decreases e,
{
    match e {
        FsEntry::File(_) => {},
        FsEntry::Dir(d) => {
            if dir_included(opts, d.name@) {
                lemma_file_tallies_are_included_files(d, forced, opts);
            }
        },
    }
}

/// An entry the name filter drops leaves every tally exactly as a scan
/// without the entry leaves it, its nested contents included.
pub proof fn lemma_excluded_name_contributes_nothing(
    cs: Seq<FsEntry>,
    i: int,
    forced: Option<Seq<char>>,
    opts: OptsView,
)
    requires
        0 <= i < cs.len(),
        name_excluded(opts, entry_name(cs[i])),
    ensures
        children_walk(cs, forced, opts) == children_walk(cs.remove(i), forced, opts),
{
    lemma_entry_dropped(cs, i, forced, opts);
}

/// A file the extension filter drops likewise leaves every tally as a
/// scan without it leaves it.
pub proof fn lemma_ext_filtered_file_contributes_nothing(
    cs: Seq<FsEntry>,
    i: int,
    forced: Option<Seq<char>>,
    opts: OptsView,
)
    requires
        0 <= i < cs.len(),
        cs[i] is File,
        !file_ext_included(opts, entry_name(cs[i])),
    ensures
        children_walk(cs, forced, opts) == children_walk(cs.remove(i), forced, opts),
{
    lemma_entry_dropped(cs, i, forced, opts);
}

/// Any one entry's subtree can be split off and its scan summed back in:
/// scanning the siblings whole equals scanning them without the entry and
/// adding the entry's own scan.
pub proof fn lemma_children_walk_partition(
    cs: Seq<FsEntry>,
    i: int,
    forced: Option<Seq<char>>,
    opts: OptsView,
)
    requires
        0 <= i < cs.len(),
    ensures
        children_walk(cs, forced, opts) == wv_add(
            children_walk(cs.remove(i), forced, opts),
            entry_walk(cs[i], forced, opts),
        ),
{
    lemma_children_walk_split(cs, i + 1, forced, opts);
    lemma_children_walk_take_step(cs, i, forced, opts);
    assert(cs.remove(i) =~= cs.take(i) + cs.skip(i + 1));
    lemma_children_walk_concat(cs.take(i), cs.skip(i + 1), forced, opts);
}

/// Removing an entry that contributes nothing does not change the fold.
proof fn lemma_entry_dropped(cs: Seq<FsEntry>, i: int, forced: Option<Seq<char>>, opts: OptsView)
    requires
        0 <= i < cs.len(),
        entry_walk(cs[i], forced, opts) == wv_zero(),
    ensures
        children_walk(cs, forced, opts) == children_walk(cs.remove(i), forced, opts),
{
    lemma_children_walk_partition(cs, i, forced, opts);
}

/// A scanned directory counts itself: its folder tally is at least one.
pub proof fn lemma_dir_walk_counts_itself(d: DirData, forced: Option<Seq<char>>, opts: OptsView)
    ensures
        dir_walk(d, forced, opts).folder_count >= 1,
{
    lemma_children_walk_nonneg(d.children@, forced, opts);
}

/// The extension filter never drops a directory: one the name filter
/// keeps is scanned whole, whatever extensions are included.
pub proof fn lemma_extension_never_drops_dir(d: DirData, forced: Option<Seq<char>>, opts: OptsView)
    requires
        !name_excluded(opts, d.name@),
    ensures
        entry_walk(FsEntry::Dir(d), forced, opts) == dir_walk(d, forced, opts),
{
}

/// The extension filter never drops a file without an extension.
pub proof fn lemma_extensionless_file_kept(f: FileData, forced: Option<Seq<char>>, opts: OptsView)
    requires
        !name_excluded(opts, f.name@),
        spec_extension(f.name@) is None,
    ensures
        entry_walk(FsEntry::File(f), forced, opts) == file_walk(f, forced),
{
}

/// A readable file whose decoded text yields no lines is tallied empty,
/// never counted and never invalid; its byte size still counts.
pub proof fn lemma_no_lines_tallied_empty(data: Seq<u8>, enc_name: Seq<char>)
    requires
        spec_file_lines(enc_name, data).len() == 0,
    ensures
        bytes_walk(data, enc_name) == wv_empty_file(
            LineCountView { lines: 0, blank_lines: 0, bytes: data.len() as int },
        ),
{
}

/// A file whose decode shows corruption anywhere is tallied invalid, and
/// nothing of its content reaches the line totals.
pub proof fn lemma_corrupt_contributes_no_lines(data: Seq<u8>, enc_name: Seq<char>)
    requires
        spec_any_corrupt(spec_file_lines(enc_name, data)),
    ensures
        bytes_walk(data, enc_name) == wv_error_file(),
        bytes_walk(data, enc_name).line_count == lcv_zero(),
{
}

} // verus!
