use crate::line_counter::{lcv_add, lcv_fits, LineCount, LineCountView};
use crate::summarizer::Summarizer;
use crate::text::{basename_of, extension_of, spec_basename, spec_extension};
use vstd::prelude::*;

verus! {

/// The key a file is grouped under: its extension, or its whole name when
/// it has none.
pub open spec fn spec_summary_key(path: Seq<char>) -> Seq<char> {
    let base = spec_basename(path);
    match spec_extension(base) {
        Some(ext) => ext,
        None => base,
    }
}

/// The rows as mathematics sees them: key, summed tallies, file count.
pub open spec fn rows_view(rows: Seq<(String, LineCount, u64)>) -> Seq<
    (Seq<char>, LineCountView, int),
> {
    Seq::new(rows.len(), |i: int| (rows[i].0@, rows[i].1@, rows[i].2 as int))
}

/// The first row holding `key`, or -1 if none does.
pub open spec fn find_key(rows: Seq<(Seq<char>, LineCountView, int)>, key: Seq<char>) -> int
    decreases rows.len(),
{
    if rows.len() == 0 {
        -1
    } else if rows[0].0 == key {
        0
    } else {
        let r = find_key(rows.drop_first(), key);
        if r == -1 {
            -1
        } else {
            1 + r
        }
    }
}

/// A row of `key` with none before it is where `find_key` points; with no
/// row of `key` at all it is -1.
pub proof fn lemma_find_key_is(rows: Seq<(Seq<char>, LineCountView, int)>, key: Seq<char>, k: int)
    requires
        -1 <= k < rows.len(),
        k >= 0 ==> rows[k].0 == key,
        forall|j: int| 0 <= j < k ==> rows[j].0 != key,
        k == -1 ==> forall|j: int| 0 <= j < rows.len() ==> rows[j].0 != key,
    ensures
        find_key(rows, key) == k,
    decreases rows.len(),
{
    if rows.len() > 0 && rows[0].0 != key {
        assert forall|j: int| 0 <= j < rows.drop_first().len() implies rows.drop_first()[j]
            == rows[j + 1] by {}
        if k == -1 {
            lemma_find_key_is(rows.drop_first(), key, -1);
        } else {
            lemma_find_key_is(rows.drop_first(), key, k - 1);
        }
    }
}

/// What recording one counted file does to the grouped rows: the file's
/// key gains the file's tallies and one more entry, a fresh key opens a
/// new row at the end.
pub open spec fn spec_record(
    rows: Seq<(Seq<char>, LineCountView, int)>,
    key: Seq<char>,
    lc: LineCountView,
) -> Seq<(Seq<char>, LineCountView, int)> {
    let i = find_key(rows, key);
    if i >= 0 {
        rows.update(i, (key, lcv_add(rows[i].1, lc), rows[i].2 + 1))
    } else {
        rows.push((key, lc, 1))
    }
}

/// Recording stays within the machine fields.
pub open spec fn record_fits(
    rows: Seq<(Seq<char>, LineCountView, int)>,
    key: Seq<char>,
    lc: LineCountView,
) -> bool {
    let i = find_key(rows, key);
    i >= 0 ==> lcv_fits(lcv_add(rows[i].1, lc)) && rows[i].2 + 1 <= u64::MAX
}

/// The first row of `key`, if one exists.
fn index_of_key(rows: &Vec<(String, LineCount, u64)>, key: &String) -> (r: Option<usize>)
    ensures
        r is Some <==> find_key(rows_view(rows@), key@) >= 0,
        r matches Some(i) ==> i as int == find_key(rows_view(rows@), key@) && i < rows@.len(),
{
    let n = rows.len();
    let mut i: usize = 0;
    while i < n
        invariant
            0 <= i <= n,
            n == rows@.len(),
            forall|j: int| 0 <= j < i ==> rows_view(rows@)[j].0 != key@,
        decreases n - i,
    {
        if rows[i].0 == *key {
            proof {
                lemma_find_key_is(rows_view(rows@), key@, i as int);
            }
            return Some(i);
        }
        i = i + 1;
    }
    proof {
        lemma_find_key_is(rows_view(rows@), key@, -1);
    }
    None
}

/// The grouping key of one recorded path.
fn summary_key_of(file_path: &str) -> (r: String)
    ensures
        r@ == spec_summary_key(file_path@),
{
    let base = basename_of(file_path);
    match extension_of(base.as_str()) {
        Some(ext) => ext,
        None => base,
    }
}

/// Groups counted files by extension: per key, the summed line counts and
/// how many files fed them, in first-seen order.
pub struct DefaultSummarizer {
    results: Vec<(String, LineCount, u64)>,
    limit: u32,
}

impl View for DefaultSummarizer {
    type V = Seq<(Seq<char>, LineCountView, int)>;

    closed spec fn view(&self) -> Seq<(Seq<char>, LineCountView, int)> {
        rows_view(self.results@)
    }
}

impl DefaultSummarizer {
    /// How many rows the rendered summary may show; zero means all of them.
    pub closed spec fn spec_limit(&self) -> u32 {
        self.limit
    }

    pub fn new() -> (r: Self)
        ensures
            r@ == Seq::<(Seq<char>, LineCountView, int)>::empty(),
            r.spec_limit() == 0u32,
    {
        let r = DefaultSummarizer { results: Vec::new(), limit: 0 };
        proof {
            assert(r@ =~= Seq::<(Seq<char>, LineCountView, int)>::empty());
        }
        r
    }

    /// The gathered rows, for rendering: key, summed tallies, file count.
    pub fn rows(&self) -> (r: &Vec<(String, LineCount, u64)>)
        ensures
            rows_view(r@) == self@,
    {
        &self.results
    }

    /// The row limit the operator set.
    pub fn limit(&self) -> (r: u32)
        ensures
            r == self.spec_limit(),
    {
        self.limit
    }

    /// Folds one counted file into the row of its key.
    pub fn record_file(&mut self, file_path: &str, entry: LineCount)
        requires
            record_fits(old(self)@, spec_summary_key(file_path@), entry@),
        ensures
            final(self)@ == spec_record(old(self)@, spec_summary_key(file_path@), entry@),
            final(self).spec_limit() == old(self).spec_limit(),
    {
        let key = summary_key_of(file_path);
        match index_of_key(&self.results, &key) {
            Some(i) => {
                let summed = self.results[i].1.add(entry);
                let bumped = self.results[i].2 + 1;
                self.results[i] = (key, summed, bumped);
                proof {
                    assert(final(self)@ =~= spec_record(
                        old(self)@,
                        spec_summary_key(file_path@),
                        entry@,
                    ));
                }
            },
            None => {
                self.results.push((key, entry, 1));
                proof {
                    assert(final(self)@ =~= spec_record(
                        old(self)@,
                        spec_summary_key(file_path@),
                        entry@,
                    ));
                }
            },
        }
    }
}

impl DefaultSummarizer {
    /// The rows ranked for the summary table: the same rows, largest line
    /// count first.
    pub fn ranked_rows(&self) -> (r: Vec<(String, LineCount, u64)>)
        ensures
            rows_view(r@).to_multiset() == self@.to_multiset(),
            forall|p: int, q: int|
                0 <= p < q < r@.len() ==> (#[trigger] r@[p]).1.lines >= (#[trigger] r@[q]).1.lines,
    {
        broadcast use vstd::seq_lib::group_to_multiset_ensures;
        broadcast use vstd::multiset::group_multiset_axioms;

        let n = self.results.len();
        let mut rest: Vec<(String, LineCount, u64)> = Vec::new();
        let mut i: usize = 0;
        while i < n
            invariant
                0 <= i <= n,
                n == self.results@.len(),
                rest@ == self.results@.take(i as int),
            decreases n - i,
        {
            let row = &self.results[i];
            rest.push((row.0.clone(), row.1, row.2));
            proof {
                assert(rest@ =~= self.results@.take(i + 1));
            }
            i = i + 1;
        }
        proof {
            assert(self.results@.take(n as int) =~= self.results@);
        }
        let ghost whole = rows_view(self.results@).to_multiset();
        let mut out: Vec<(String, LineCount, u64)> = Vec::new();
        proof {
            assert(rows_view(out@) =~= Seq::<(Seq<char>, LineCountView, int)>::empty());
            assert(rows_view(out@).to_multiset().add(rows_view(rest@).to_multiset()) =~= whole);
        }
        while rest.len() > 0
            invariant
                rows_view(out@).to_multiset().add(rows_view(rest@).to_multiset()) == whole,
                whole == rows_view(self.results@).to_multiset(),
                forall|p: int, q: int|
                    0 <= p < q < out@.len() ==> (#[trigger] out@[p]).1.lines >= (
                    #[trigger] out@[q]).1.lines,
                forall|p: int, q: int|
                    0 <= p < out@.len() && 0 <= q < rest@.len() ==> (#[trigger] out@[p]).1.lines
                        >= (#[trigger] rest@[q]).1.lines,
            decreases rest.len(),
        {
            let m = rest.len();
            let mut best: usize = 0;
            let mut j: usize = 1;
            while j < m
                invariant
                    0 <= best < j <= m,
                    m == rest@.len(),
                    forall|k: int| 0 <= k < j ==> (#[trigger] rest@[k]).1.lines
                        <= rest@[best as int].1.lines,
                decreases m - j,
            {
                if rest[j].1.lines > rest[best].1.lines {
                    best = j;
                }
                j = j + 1;
            }
            let ghost old_out = out@;
            let ghost old_rest = rest@;
            let picked = rest.remove(best);
            out.push(picked);
            proof {
                broadcast use vstd::seq_lib::group_to_multiset_ensures;

                assert(rows_view(old_rest.remove(best as int)) =~= rows_view(old_rest).remove(
                    best as int,
                ));
                assert(rows_view(out@) =~= rows_view(old_out).push(
                    (picked.0@, picked.1@, picked.2 as int),
                ));
                assert(rows_view(old_rest)[best as int] == (picked.0@, picked.1@, picked.2 as int));
                let ghost v = (picked.0@, picked.1@, picked.2 as int);
                assert(rows_view(old_out).push(v).to_multiset() =~= rows_view(
                    old_out,
                ).to_multiset().insert(v));
                assert(rows_view(old_rest).remove(best as int).to_multiset() =~= rows_view(
                    old_rest,
                ).to_multiset().remove(v));
                assert(rows_view(old_rest).contains(v));
                assert(rows_view(old_rest).to_multiset().count(v) > 0);
                assert(rows_view(out@).to_multiset().add(rows_view(rest@).to_multiset())
                    =~= rows_view(old_out).to_multiset().add(
                    rows_view(old_rest).to_multiset(),
                )) by {
                    broadcast use vstd::multiset::group_multiset_axioms;

                };
                assert forall|p: int, q: int|
                    0 <= p < out@.len() && 0 <= q < rest@.len() implies (
                #[trigger] out@[p]).1.lines >= (#[trigger] rest@[q]).1.lines by {
                    if q >= best as int {
                        assert(rest@[q] == old_rest[q + 1]);
                    } else {
                        assert(rest@[q] == old_rest[q]);
                    }
                    if p < old_out.len() {
                        assert(out@[p] == old_out[p]);
                    } else {
                        assert(out@[p] == picked);
                    }
                }
            }
        }
        proof {
            assert(rows_view(rest@) =~= Seq::<(Seq<char>, LineCountView, int)>::empty());
            assert(rows_view(out@).to_multiset().add(rows_view(rest@).to_multiset()) =~= rows_view(
                out@,
            ).to_multiset());
        }
        out
    }
}

impl Summarizer for DefaultSummarizer {
    fn append_entry(&mut self, file_path: &str, entry: LineCount) {
        // The row of a key whose tallies would no longer fit in u64 stays
        // as it stands; `record_file` carries the exact contract.
        let key = summary_key_of(file_path);
        match index_of_key(&self.results, &key) {
            Some(i) => {
                let row = &self.results[i];
                if row.1.lines <= u64::MAX - entry.lines && row.1.blank_lines <= u64::MAX
                    - entry.blank_lines && row.1.bytes <= u64::MAX - entry.bytes && row.2
                    < u64::MAX {
                    self.record_file(file_path, entry);
                }
            },
            None => {
                self.record_file(file_path, entry);
            },
        }
    }

    fn set_limit(&mut self, limit: u32) {
        self.limit = limit;
    }
}

} // verus!
