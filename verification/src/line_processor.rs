pub mod plain_line_processor;

use crate::encoding::EncodingId;
use crate::line_counter::{LineCount, LineCountView};
use crate::line_processor::plain_line_processor::PlainLineProcessor;
use vstd::prelude::*;

verus! {

/// Whether `c` has Unicode's `White_Space` property, as
/// `char::is_whitespace` sees it.
pub open spec fn spec_is_whitespace(c: char) -> bool {
    ||| c == '\u{0009}'
    ||| c == '\u{000A}'
    ||| c == '\u{000B}'
    ||| c == '\u{000C}'
    ||| c == '\u{000D}'
    ||| c == '\u{0020}'
    ||| c == '\u{0085}'
    ||| c == '\u{00A0}'
    ||| c == '\u{1680}'
    ||| c == '\u{2000}'
    ||| c == '\u{2001}'
    ||| c == '\u{2002}'
    ||| c == '\u{2003}'
    ||| c == '\u{2004}'
    ||| c == '\u{2005}'
    ||| c == '\u{2006}'
    ||| c == '\u{2007}'
    ||| c == '\u{2008}'
    ||| c == '\u{2009}'
    ||| c == '\u{200A}'
    ||| c == '\u{2028}'
    ||| c == '\u{2029}'
    ||| c == '\u{202F}'
    ||| c == '\u{205F}'
    ||| c == '\u{3000}'
}

/// A blank line is made of whitespace alone; the empty line is blank.
pub open spec fn spec_is_blank(line: Seq<char>) -> bool {
    forall|i: int| 0 <= i < line.len() ==> spec_is_whitespace(line[i])
}

/// Whether a decoded line carries the Unicode replacement character,
/// the sign that the chosen encoding could not represent the bytes.
pub open spec fn spec_has_replacement(line: Seq<char>) -> bool {
    exists|i: int| 0 <= i < line.len() && line[i] == '\u{FFFD}'
}

/// What one well-decoded line contributes to a file's tally: one line,
/// blank or not; byte totals are attributed per file, not per line.
pub open spec fn spec_line_tally(line: Seq<char>) -> LineCountView {
    LineCountView {
        lines: 1,
        blank_lines: if spec_is_blank(line) { 1 } else { 0 },
        bytes: 0,
    }
}

/// Exactly `char::is_whitespace`, written out against the `White_Space` list.
pub fn is_whitespace_char(c: char) -> (r: bool)
    ensures
        r == spec_is_whitespace(c),
{
    c == '\u{0009}' || c == '\u{000A}' || c == '\u{000B}' || c == '\u{000C}' || c == '\u{000D}'
        || c == '\u{0020}' || c == '\u{0085}' || c == '\u{00A0}' || c == '\u{1680}'
        || (c >= '\u{2000}' && c <= '\u{200A}') || c == '\u{2028}' || c == '\u{2029}'
        || c == '\u{202F}' || c == '\u{205F}' || c == '\u{3000}'
}

/// A line that could not be represented faithfully in the chosen encoding.
#[derive(Debug)]
pub struct DecodeCorruption {
    pub encoding: String,
}

/// The line-classification strategy slot: one call per decoded line.
pub trait LineProcessor {
    fn process_line(&mut self, line: &str, encoding: &EncodingId) -> Result<
        LineCount,
        DecodeCorruption,
    >;
}

pub struct LineProcessorFactory {}

impl LineProcessorFactory {
    /// Picks the classifier for a file, by its name; every file gets the
    /// plain-text classifier until richer ones exist.
    pub fn create(_name: &str) -> (r: PlainLineProcessor) {
        PlainLineProcessor {}
    }
}

} // verus!
