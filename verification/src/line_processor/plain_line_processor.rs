use crate::encoding::EncodingId;
use crate::line_counter::LineCount;
use crate::line_processor::{
    is_whitespace_char, spec_has_replacement, spec_is_whitespace, spec_line_tally,
    DecodeCorruption, LineProcessor,
};
use vstd::prelude::*;
use vstd::string::StrSliceExecFns;
use vstd::string::StringExecFns;

verus! {

/// The default classifier: blank versus non-blank, with the
/// replacement-character heuristic for decode corruption.
pub struct PlainLineProcessor {}

impl PlainLineProcessor {
    /// Classifies one decoded line: a corrupt line (one holding U+FFFD)
    /// fails with the encoding's name; any other line counts once, as
    /// blank exactly when it is whitespace alone.
    pub fn classify(&self, line: &str, encoding: &EncodingId) -> (r: Result<
        LineCount,
        DecodeCorruption,
    >)
        ensures
            r is Err <==> spec_has_replacement(line@),
            r matches Err(e) ==> e.encoding@ == encoding@,
            r matches Ok(lc) ==> lc@ == spec_line_tally(line@),
    {
        let len = line.unicode_len();
        let mut all_ws = true;
        let mut i: usize = 0;
        while i < len
            invariant
                0 <= i <= len,
                len == line@.len(),
                forall|j: int| 0 <= j < i ==> line@[j] != '\u{FFFD}',
                all_ws == (forall|j: int| 0 <= j < i ==> spec_is_whitespace(line@[j])),
            decreases len - i,
        {
            let c = line.get_char(i);
            if c == '\u{FFFD}' {
                return Err(DecodeCorruption { encoding: String::from_str(encoding.name()) });
            }
            if !is_whitespace_char(c) {
                all_ws = false;
            }
            i = i + 1;
        }
        if all_ws {
            Ok(LineCount { lines: 1, blank_lines: 1, bytes: 0 })
        } else {
            Ok(LineCount { lines: 1, blank_lines: 0, bytes: 0 })
        }
    }
}

impl LineProcessor for PlainLineProcessor {
    fn process_line(&mut self, line: &str, encoding: &EncodingId) -> Result<
        LineCount,
        DecodeCorruption,
    > {
        self.classify(line, encoding)
    }
}

} // verus!
