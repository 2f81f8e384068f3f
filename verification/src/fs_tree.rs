use crate::encoding::decodable_len;
use vstd::prelude::*;

verus! {

/// What the encoding detector reported for one file's leading bytes.
#[derive(Debug)]
pub struct Detection {
    /// The label the detector chose.
    pub label: String,
    /// The detector's confidence, in basis points (hundredths of a percent).
    pub confidence: u32,
}

/// What the caller read for one file.
#[derive(Debug)]
pub enum FileContent {
    /// The file's bytes, with the detector's report on their leading bytes
    /// where detection ran; a file without one is read as UTF-8 when no
    /// forced encoding applies.
    Bytes { data: Vec<u8>, detection: Option<Detection> },
    /// The file could not be opened or read.
    Unreadable,
}

/// One file of the tree: its literal name and what was read of it.
#[derive(Debug)]
pub struct FileData {
    pub name: String,
    pub content: FileContent,
}

/// One directory of the tree: its literal name and its immediate children,
/// in the order the filesystem yielded them.
#[derive(Debug)]
pub struct DirData {
    pub name: String,
    pub children: Vec<FsEntry>,
}

/// An in-memory picture of one directory-tree entry, as the caller
/// enumerated and read it.
#[derive(Debug)]
pub enum FsEntry {
    File(FileData),
    Dir(DirData),
}

/// The file's bytes are small enough to decode without overflow.
pub open spec fn file_decodable(f: FileData) -> bool {
    match f.content {
        FileContent::Bytes { data, detection: _ } => decodable_len(data@.len() as int),
        FileContent::Unreadable => true,
    }
}

/// Every file at or below this entry is small enough to decode.
pub open spec fn entry_decodable(e: FsEntry) -> bool
    decreases e,
{
    match e {
        FsEntry::File(f) => file_decodable(f),
        FsEntry::Dir(d) => dir_decodable(d),
    }
}

/// Every file below this directory is small enough to decode.
pub open spec fn dir_decodable(d: DirData) -> bool
    decreases d,
{
    children_decodable(d.children@)
}

/// Every file at or below any of these entries is small enough to decode.
pub open spec fn children_decodable(cs: Seq<FsEntry>) -> bool
    decreases cs,
{
    if cs.len() == 0 {
        true
    } else {
        children_decodable(cs.drop_last()) && entry_decodable(cs.last())
    }
}

/// An element of a decodable list is decodable.
pub proof fn lemma_children_decodable_at(cs: Seq<FsEntry>, i: int)
    requires
        children_decodable(cs),
        0 <= i < cs.len(),
    ensures
        entry_decodable(cs[i]),
    decreases cs.len(),
{
    if i < cs.len() - 1 {
        assert(cs.drop_last()[i] == cs[i]);
        lemma_children_decodable_at(cs.drop_last(), i);
    }
}

/// How many directory levels stand at or below an entry: a file has none.
pub open spec fn entry_height(e: FsEntry) -> int
    decreases e,
{
    match e {
        FsEntry::File(_) => 0,
        FsEntry::Dir(d) => dir_height(d),
    }
}

/// How many directory levels stand at or below a directory: itself, plus
/// the deepest of its children.
pub open spec fn dir_height(d: DirData) -> int
    decreases d,
{
    1 + children_height(d.children@)
}

/// The deepest of these entries.
pub open spec fn children_height(cs: Seq<FsEntry>) -> int
    decreases cs,
{
    if cs.len() == 0 {
        0
    } else {
        let rest = children_height(cs.drop_last());
        let last = entry_height(cs.last());
        if last >= rest {
            last
        } else {
            rest
        }
    }
}

/// Heights are never negative.
pub proof fn lemma_children_height_nonneg(cs: Seq<FsEntry>)
    ensures
        children_height(cs) >= 0,
    decreases cs,
{
    if cs.len() > 0 {
        lemma_children_height_nonneg(cs.drop_last());
    }
}

/// No element of a list stands deeper than the list.
pub proof fn lemma_children_height_at(cs: Seq<FsEntry>, i: int)
    requires
        0 <= i < cs.len(),
    ensures
        entry_height(cs[i]) <= children_height(cs),
    decreases cs.len(),
{
    if i < cs.len() - 1 {
        assert(cs.drop_last()[i] == cs[i]);
        lemma_children_height_at(cs.drop_last(), i);
    }
}

} // verus!
