use crate::line_counter::{LineCount, LineCountView};
use crate::summarizer::Summarizer;
use vstd::prelude::*;
use vstd::string::StringExecFns;

verus! {

/// The entries as mathematics sees them: path and tallies.
pub open spec fn entries_view(rows: Seq<(String, LineCount)>) -> Seq<(Seq<char>, LineCountView)> {
    Seq::new(rows.len(), |i: int| (rows[i].0@, rows[i].1@))
}

/// Remembers every counted file with its tallies, in scan order, for a
/// ranked-by-size leaderboard.
pub struct LeaderboardSummarizer {
    entries: Vec<(String, LineCount)>,
}

impl View for LeaderboardSummarizer {
    type V = Seq<(Seq<char>, LineCountView)>;

    closed spec fn view(&self) -> Seq<(Seq<char>, LineCountView)> {
        entries_view(self.entries@)
    }
}

impl LeaderboardSummarizer {
    pub fn new() -> (r: Self)
        ensures
            r@ == Seq::<(Seq<char>, LineCountView)>::empty(),
    {
        let r = LeaderboardSummarizer { entries: Vec::new() };
        proof {
            assert(r@ =~= Seq::<(Seq<char>, LineCountView)>::empty());
        }
        r
    }

    /// The remembered entries, in scan order.
    pub fn entries(&self) -> (r: &Vec<(String, LineCount)>)
        ensures
            entries_view(r@) == self@,
    {
        &self.entries
    }

    /// Remembers one counted file.
    pub fn record_file(&mut self, file_path: &str, entry: LineCount)
        ensures
            final(self)@ == old(self)@.push((file_path@, entry@)),
    {
        self.entries.push((String::from_str(file_path), entry));
        proof {
            assert(final(self)@ =~= old(self)@.push((file_path@, entry@)));
        }
    }
}

impl LeaderboardSummarizer {
    /// The entries ranked for the leaderboard: the same entries, largest
    /// line count first.
    pub fn ranked(&self) -> (r: Vec<(String, LineCount)>)
        ensures
            entries_view(r@).to_multiset() == self@.to_multiset(),
            forall|p: int, q: int|
                0 <= p < q < r@.len() ==> (#[trigger] r@[p]).1.lines >= (#[trigger] r@[q]).1.lines,
    {
        broadcast use vstd::seq_lib::group_to_multiset_ensures;

        let n = self.entries.len();
        let mut rest: Vec<(String, LineCount)> = Vec::new();
        let mut i: usize = 0;
        while i < n
            invariant
                0 <= i <= n,
                n == self.entries@.len(),
                rest@ == self.entries@.take(i as int),
            decreases n - i,
        {
            let row = &self.entries[i];
            rest.push((row.0.clone(), row.1));
            proof {
                assert(rest@ =~= self.entries@.take(i + 1));
            }
            i = i + 1;
        }
        proof {
            assert(self.entries@.take(n as int) =~= self.entries@);
        }
        let ghost whole = entries_view(self.entries@).to_multiset();
        let mut out: Vec<(String, LineCount)> = Vec::new();
        proof {
            assert(entries_view(out@) =~= Seq::<(Seq<char>, LineCountView)>::empty());
            assert(entries_view(out@).to_multiset().add(entries_view(rest@).to_multiset())
                =~= whole);
        }
        while rest.len() > 0
            invariant
                entries_view(out@).to_multiset().add(entries_view(rest@).to_multiset()) == whole,
                whole == entries_view(self.entries@).to_multiset(),
                forall|p: int, q: int|
                    0 <= p < q < out@.len() ==> (#[trigger] out@[p]).1.lines >= (
                    #[trigger] out@[q]).1.lines,
                forall|p: int, q: int|
                    0 <= p < out@.len() && 0 <= q < rest@.len() ==> (#[trigger] out@[p]).1.lines
                        >= (#[trigger] rest@[q]).1.lines,
            decreases rest.len(),
        {
            let m = rest.len();
            let mut best: usize = 0;
            let mut j: usize = 1;
            while j < m
                invariant
                    0 <= best < j <= m,
                    m == rest@.len(),
                    forall|k: int| 0 <= k < j ==> (#[trigger] rest@[k]).1.lines
                        <= rest@[best as int].1.lines,
                decreases m - j,
            {
                if rest[j].1.lines > rest[best].1.lines {
                    best = j;
                }
                j = j + 1;
            }
            let ghost old_out = out@;
            let ghost old_rest = rest@;
            let picked = rest.remove(best);
            out.push(picked);
            proof {
                broadcast use vstd::seq_lib::group_to_multiset_ensures;

                assert(entries_view(old_rest.remove(best as int)) =~= entries_view(
                    old_rest,
                ).remove(best as int));
                assert(entries_view(out@) =~= entries_view(old_out).push(
                    (picked.0@, picked.1@),
                ));
                assert(entries_view(old_rest)[best as int] == (picked.0@, picked.1@));
                let ghost v = (picked.0@, picked.1@);
                assert(entries_view(old_out).push(v).to_multiset() =~= entries_view(
                    old_out,
                ).to_multiset().insert(v));
                assert(entries_view(old_rest).remove(best as int).to_multiset() =~= entries_view(
                    old_rest,
                ).to_multiset().remove(v));
                assert(entries_view(old_rest).contains(v));
                assert(entries_view(old_rest).to_multiset().count(v) > 0);
                assert(entries_view(out@).to_multiset().add(entries_view(rest@).to_multiset())
                    =~= entries_view(old_out).to_multiset().add(
                    entries_view(old_rest).to_multiset(),
                )) by {
                    broadcast use vstd::multiset::group_multiset_axioms;

                };
                assert forall|p: int, q: int|
                    0 <= p < out@.len() && 0 <= q < rest@.len() implies (
                #[trigger] out@[p]).1.lines >= (#[trigger] rest@[q]).1.lines by {
                    if q >= best as int {
                        assert(rest@[q] == old_rest[q + 1]);
                    } else {
                        assert(rest@[q] == old_rest[q]);
                    }
                    if p < old_out.len() {
                        assert(out@[p] == old_out[p]);
                    } else {
                        assert(out@[p] == picked);
                    }
                }
            }
        }
        proof {
            assert(entries_view(rest@) =~= Seq::<(Seq<char>, LineCountView)>::empty());
            assert(entries_view(out@).to_multiset().add(entries_view(rest@).to_multiset())
                =~= entries_view(out@).to_multiset());
        }
        out
    }
}

impl Summarizer for LeaderboardSummarizer {
    fn append_entry(&mut self, file_path: &str, entry: LineCount) {
        self.record_file(file_path, entry);
    }

    fn set_limit(&mut self, _limit: u32) {
    }
}

} // verus!
