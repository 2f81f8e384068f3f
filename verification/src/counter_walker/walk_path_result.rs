use crate::line_counter::{lcv_add, lcv_fits, lcv_zero, LineCount, LineCountView};
use vstd::prelude::*;

verus! {

/// Mathematical view of a [`WalkPathResult`]: the same tallies, unbounded.
pub ghost struct WalkView {
    pub line_count: LineCountView,
    pub folder_count: int,
    pub file_count: int,
    pub empty_file_count: int,
    pub error_file_count: int,
}

/// The identity of component-wise aggregate addition.
pub open spec fn wv_zero() -> WalkView {
    WalkView {
        line_count: lcv_zero(),
        folder_count: 0,
        file_count: 0,
        empty_file_count: 0,
        error_file_count: 0,
    }
}

/// Component-wise addition of two aggregate views.
pub open spec fn wv_add(a: WalkView, b: WalkView) -> WalkView {
    WalkView {
        line_count: lcv_add(a.line_count, b.line_count),
        folder_count: a.folder_count + b.folder_count,
        file_count: a.file_count + b.file_count,
        empty_file_count: a.empty_file_count + b.empty_file_count,
        error_file_count: a.error_file_count + b.error_file_count,
    }
}

/// Every tally is non-negative and small enough for its machine field.
pub open spec fn wv_fits(a: WalkView) -> bool {
    &&& lcv_fits(a.line_count)
    &&& 0 <= a.folder_count <= usize::MAX
    &&& 0 <= a.file_count <= usize::MAX
    &&& 0 <= a.empty_file_count <= usize::MAX
    &&& 0 <= a.error_file_count <= usize::MAX
}

/// Aggregates form a commutative monoid under addition: commutativity.
pub proof fn lemma_wv_add_commutes(a: WalkView, b: WalkView)
    ensures
        wv_add(a, b) == wv_add(b, a),
{
}

/// Aggregates form a commutative monoid under addition: associativity.
pub proof fn lemma_wv_add_associates(a: WalkView, b: WalkView, c: WalkView)
    ensures
        wv_add(wv_add(a, b), c) == wv_add(a, wv_add(b, c)),
{
}

/// Aggregates form a commutative monoid under addition: identity.
pub proof fn lemma_wv_add_zero(a: WalkView)
    ensures
        wv_add(a, wv_zero()) == a,
        wv_add(wv_zero(), a) == a,
{
}

/// Tallies for one scanned subtree: line totals plus entry counts.
#[derive(Debug, Copy, Clone, PartialEq, Eq, Structural)]
pub struct WalkPathResult {
    pub line_count: LineCount,
    pub folder_count: usize,
    pub file_count: usize,
    pub empty_file_count: usize,
    pub error_file_count: usize,
}

impl View for WalkPathResult {
    type V = WalkView;

    open spec fn view(&self) -> WalkView {
        WalkView {
            line_count: self.line_count@,
            folder_count: self.folder_count as int,
            file_count: self.file_count as int,
            empty_file_count: self.empty_file_count as int,
            error_file_count: self.error_file_count as int,
        }
    }
}

impl WalkPathResult {
    /// How many files were looked at, whatever their outcome.
    pub fn total_files(&self) -> (r: usize)
        requires
            self@.file_count + self@.error_file_count + self@.empty_file_count <= usize::MAX,
        ensures
            r as int == self@.file_count + self@.error_file_count + self@.empty_file_count,
    {
        self.file_count + self.error_file_count + self.empty_file_count
    }

    /// How many entries were looked at: files of every outcome plus folders.
    pub fn total_entries(&self) -> (r: usize)
        requires
            self@.file_count + self@.error_file_count + self@.empty_file_count
                + self@.folder_count <= usize::MAX,
        ensures
            r as int == self@.file_count + self@.error_file_count + self@.empty_file_count
                + self@.folder_count,
    {
        self.total_files() + self.folder_count
    }

    pub fn new() -> (r: WalkPathResult)
        ensures
            r@ == wv_zero(),
    {
        WalkPathResult {
            line_count: LineCount::new(),
            folder_count: 0,
            file_count: 0,
            empty_file_count: 0,
            error_file_count: 0,
        }
    }

    pub fn add(self, rhs: Self) -> (r: Self)
        requires
            wv_fits(wv_add(self@, rhs@)),
        ensures
            r@ == wv_add(self@, rhs@),
    {
        WalkPathResult {
            line_count: self.line_count.add(rhs.line_count),
            folder_count: self.folder_count + rhs.folder_count,
            file_count: self.file_count + rhs.file_count,
            empty_file_count: self.empty_file_count + rhs.empty_file_count,
            error_file_count: self.error_file_count + rhs.error_file_count,
        }
    }

    pub fn add_assign(&mut self, rhs: Self)
        requires
            wv_fits(wv_add(old(self)@, rhs@)),
        ensures
            final(self)@ == wv_add(old(self)@, rhs@),
    {
        self.line_count.add_assign(rhs.line_count);
        self.folder_count = self.folder_count + rhs.folder_count;
        self.file_count = self.file_count + rhs.file_count;
        self.empty_file_count = self.empty_file_count + rhs.empty_file_count;
        self.error_file_count = self.error_file_count + rhs.error_file_count;
    }
}

} // verus!
