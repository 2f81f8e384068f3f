use crate::encoding::{decodable_len, decoded_text, resolved_label_name, EncodingId};
use crate::line_processor::{spec_has_replacement, spec_is_blank, DecodeCorruption};
use crate::line_processor::LineProcessorFactory;
use num_format::ToFormattedString;
use vstd::prelude::*;
use vstd::string::StrSliceExecFns;
use vstd::string::StringExecFns;

verus! {

/// Mathematical view of a [`LineCount`]: the same three tallies, unbounded.
pub ghost struct LineCountView {
    pub lines: int,
    pub blank_lines: int,
    pub bytes: int,
}

/// The identity of component-wise line-count addition.
pub open spec fn lcv_zero() -> LineCountView {
    LineCountView { lines: 0, blank_lines: 0, bytes: 0 }
}

/// Component-wise addition of two line-count views.
pub open spec fn lcv_add(a: LineCountView, b: LineCountView) -> LineCountView {
    LineCountView {
        lines: a.lines + b.lines,
        blank_lines: a.blank_lines + b.blank_lines,
        bytes: a.bytes + b.bytes,
    }
}

/// Every tally is non-negative and small enough to live in a `u64`.
pub open spec fn lcv_fits(a: LineCountView) -> bool {
    &&& 0 <= a.lines <= u64::MAX
    &&& 0 <= a.blank_lines <= u64::MAX
    &&& 0 <= a.bytes <= u64::MAX
}

/// Line counts form a commutative monoid under addition: commutativity.
pub proof fn lemma_lcv_add_commutes(a: LineCountView, b: LineCountView)
    ensures
        lcv_add(a, b) == lcv_add(b, a),
{
}

/// Line counts form a commutative monoid under addition: associativity.
pub proof fn lemma_lcv_add_associates(a: LineCountView, b: LineCountView, c: LineCountView)
    ensures
        lcv_add(lcv_add(a, b), c) == lcv_add(a, lcv_add(b, c)),
{
}

/// Line counts form a commutative monoid under addition: identity.
pub proof fn lemma_lcv_add_zero(a: LineCountView)
    ensures
        lcv_add(a, lcv_zero()) == a,
        lcv_add(lcv_zero(), a) == a,
{
}

/// How a line count is rendered: a bare figure, or a coloured one.
#[derive(Clone, Copy, Debug)]
pub enum LineCountFormat {
    Simple { show_bytes: bool },
    Colour { show_bytes: bool },
}

/// Per-file line tallies: total lines, blank lines, and byte size.
#[derive(Clone, Copy, Debug, PartialEq, Eq, Structural)]
pub struct LineCount {
    pub lines: u64,
    pub blank_lines: u64,
    pub bytes: u64,
}

impl View for LineCount {
    type V = LineCountView;

    open spec fn view(&self) -> LineCountView {
        LineCountView {
            lines: self.lines as int,
            blank_lines: self.blank_lines as int,
            bytes: self.bytes as int,
        }
    }
}

impl Default for LineCount {
    fn default() -> (r: Self)
        ensures
            r@ == lcv_zero(),
    {
        Self::new()
    }
}

impl LineCount {
    pub fn new() -> (r: LineCount)
        ensures
            r@ == lcv_zero(),
    {
        LineCount { lines: 0, blank_lines: 0, bytes: 0 }
    }

    pub fn add(self, rhs: Self) -> (r: Self)
        requires
            lcv_fits(lcv_add(self@, rhs@)),
        ensures
            r@ == lcv_add(self@, rhs@),
    {
        LineCount {
            lines: self.lines + rhs.lines,
            blank_lines: self.blank_lines + rhs.blank_lines,
            bytes: self.bytes + rhs.bytes,
        }
    }

    pub fn add_assign(&mut self, rhs: Self)
        requires
            lcv_fits(lcv_add(old(self)@, rhs@)),
        ensures
            final(self)@ == lcv_add(old(self)@, rhs@),
    {
        self.lines = self.lines + rhs.lines;
        self.blank_lines = self.blank_lines + rhs.blank_lines;
        self.bytes = self.bytes + rhs.bytes;
    }
}

/// The position of the first line feed in `text`, or `text.len()` if none.
pub open spec fn first_nl(text: Seq<char>) -> int
    decreases text.len(),
{
    if text.len() == 0 {
        0
    } else if text[0] == '\n' {
        0
    } else {
        1 + first_nl(text.drop_first())
    }
}

/// `first_nl` finds a line feed, and the first one.
pub proof fn lemma_first_nl(text: Seq<char>)
    ensures
        0 <= first_nl(text) <= text.len(),
        first_nl(text) < text.len() ==> text[first_nl(text)] == '\n',
        forall|j: int| 0 <= j < first_nl(text) ==> text[j] != '\n',
    decreases text.len(),
{
    if text.len() > 0 && text[0] != '\n' {
        lemma_first_nl(text.drop_first());
        assert forall|j: int| 0 <= j < first_nl(text) implies text[j] != '\n' by {
            if j >= 1 {
                assert(text[j] == text.drop_first()[j - 1]);
            }
        }
    }
}

/// A position before which no line feed stands, holding one itself or
/// ending the text, is where `first_nl` points.
pub proof fn lemma_first_nl_is(text: Seq<char>, k: int)
    requires
        0 <= k <= text.len(),
        forall|j: int| 0 <= j < k ==> text[j] != '\n',
        k < text.len() ==> text[k] == '\n',
    ensures
        first_nl(text) == k,
    decreases text.len(),
{
    if text.len() > 0 && text[0] != '\n' {
        assert forall|j: int| 0 <= j < k - 1 implies text.drop_first()[j] != '\n' by {
            assert(text.drop_first()[j] == text[j + 1]);
        }
        lemma_first_nl_is(text.drop_first(), k - 1);
    }
}

/// A line terminated by a line feed also sheds one carriage return
/// standing right before the feed.
pub open spec fn strip_cr(line: Seq<char>) -> Seq<char> {
    if line.len() > 0 && line[line.len() - 1] == '\r' {
        line.drop_last()
    } else {
        line
    }
}

/// The lines of `text`, split as `std::io::BufRead::lines` splits them:
/// at every line feed, shedding a carriage return before the feed; a
/// final fragment without a feed is a line as it stands, and nothing
/// follows a final feed.
pub open spec fn spec_split_lines(text: Seq<char>) -> Seq<Seq<char>>
    decreases text.len(),
    via spec_split_lines_decreases
{
    if text.len() == 0 {
        Seq::empty()
    } else {
        let p = first_nl(text);
        if p >= text.len() {
            seq![text]
        } else {
            seq![strip_cr(text.take(p))] + spec_split_lines(text.skip(p + 1))
        }
    }
}

#[via_fn]
proof fn spec_split_lines_decreases(text: Seq<char>) {
    lemma_first_nl(text);
}

/// How many of the split lines are blank.
pub open spec fn spec_blank_total(ls: Seq<Seq<char>>) -> int
    decreases ls.len(),
{
    if ls.len() == 0 {
        0
    } else {
        spec_blank_total(ls.drop_last()) + if spec_is_blank(ls.last()) {
            1int
        } else {
            0int
        }
    }
}

/// A blank tally counts some of the lines: it stays between 0 and all
/// of them.
pub proof fn lemma_blank_total_bounds(ls: Seq<Seq<char>>)
    ensures
        0 <= spec_blank_total(ls) <= ls.len(),
    decreases ls.len(),
{
    if ls.len() > 0 {
        lemma_blank_total_bounds(ls.drop_last());
    }
}

/// Whether any of the split lines shows decode corruption.
pub open spec fn spec_any_corrupt(ls: Seq<Seq<char>>) -> bool {
    exists|i: int| 0 <= i < ls.len() && spec_has_replacement(ls[i])
}

/// The lines of a file's bytes under the encoding of canonical name
/// `enc_name`: decode, then split.
pub open spec fn spec_file_lines(enc_name: Seq<char>, data: Seq<u8>) -> Seq<Seq<char>> {
    spec_split_lines(decoded_text(enc_name, data))
}

/// Splits decoded text into lines, as `std::io::BufRead::lines` would.
pub fn split_lines(text: &str) -> (r: Vec<String>)
    ensures
        r.deep_view() == spec_split_lines(text@),
{
    let len = text.unicode_len();
    let mut r: Vec<String> = Vec::new();
    let mut start: usize = 0;
    proof {
        assert(text@.skip(0) =~= text@);
        assert(r.deep_view() =~= Seq::<Seq<char>>::empty());
        assert(r.deep_view() + spec_split_lines(text@) =~= spec_split_lines(text@));
    }
    while start < len
        invariant
            0 <= start <= len,
            len == text@.len(),
            r.deep_view() + spec_split_lines(text@.skip(start as int)) == spec_split_lines(
                text@,
            ),
        decreases len - start,
    {
        let ghost prefix = r.deep_view();
        let ghost rest = text@.skip(start as int);
        let mut i: usize = start;
        while i < len && text.get_char(i) != '\n'
            invariant
                start <= i <= len,
                len == text@.len(),
                forall|j: int| start <= j < i ==> text@[j] != '\n',
            decreases len - i,
        {
            i = i + 1;
        }
        proof {
            assert forall|j: int| 0 <= j < i - start implies rest[j] != '\n' by {
                assert(rest[j] == text@[start + j]);
            }
            if i < len {
                assert(rest[i - start] == text@[i as int]);
            }
            lemma_first_nl_is(rest, i - start);
        }
        if i == len {
            let line = text.substring_char(start, len);
            r.push(line.to_owned());
            proof {
                assert(rest.take(first_nl(rest)) =~= rest);
                assert(r.deep_view() =~= prefix + seq![text@.subrange(start as int, len as int)]);
                assert(rest =~= text@.subrange(start as int, len as int));
            }
            start = len;
        } else {
            let end = if i > start && text.get_char(i - 1) == '\r' {
                i - 1
            } else {
                i
            };
            let line = text.substring_char(start, end);
            r.push(line.to_owned());
            proof {
                let cut = rest.take(i - start);
                assert(cut =~= text@.subrange(start as int, i as int));
                assert(strip_cr(cut) =~= text@.subrange(start as int, end as int));
                assert(r.deep_view() =~= prefix + seq![strip_cr(cut)]);
                assert(rest.skip(i - start + 1) =~= text@.skip(i + 1));
                assert(prefix + (seq![strip_cr(cut)] + spec_split_lines(text@.skip(i + 1)))
                    =~= (prefix + seq![strip_cr(cut)]) + spec_split_lines(text@.skip(i + 1)));
            }
            start = i + 1;
        }
    }
    proof {
        assert(text@.skip(start as int) =~= Seq::<char>::empty());
        assert(r.deep_view() =~= r.deep_view() + spec_split_lines(text@.skip(start as int)));
    }
    r
}

/// Counts the lines of one file's bytes, decoded under `encoding`.
///
/// The classifier for the file is chosen by `name`. Success tallies every
/// line, the blank ones among them, and the byte size; a decode corruption
/// anywhere discards the whole file's count.
pub fn count_lines(name: &str, data: &Vec<u8>, encoding: &EncodingId) -> (r: Result<
    LineCount,
    DecodeCorruption,
>)
    requires
        decodable_len(data@.len() as int),
    ensures
        ({
            let ls = spec_file_lines(encoding@, data@);
            &&& (r is Err <==> spec_any_corrupt(ls))
            &&& (r matches Err(e) ==> e.encoding@ == encoding@)
            &&& (r matches Ok(lc) ==> lc@ == LineCountView {
                lines: ls.len() as int,
                blank_lines: spec_blank_total(ls),
                bytes: data@.len() as int,
            })
            &&& (data@.len() == 0 ==> ls.len() == 0)
        }),
{
    let text = encoding.decode(data);
    let lines = split_lines(text.as_str());
    let processor = LineProcessorFactory::create(name);
    let ghost ls = spec_file_lines(encoding@, data@);
    proof {
        assert(data@.len() == 0 ==> ls.len() == 0);
    }
    let mut total: u64 = 0;
    let mut blank: u64 = 0;
    let mut i: usize = 0;
    while i < lines.len()
        invariant
            0 <= i <= lines.len(),
            ls == spec_file_lines(encoding@, data@),
            data@.len() == 0 ==> ls.len() == 0,
            lines.deep_view() == ls,
            total == i,
            blank <= total,
            i <= usize::MAX,
            blank == spec_blank_total(ls.take(i as int)),
            forall|j: int| 0 <= j < i ==> !spec_has_replacement(ls[j]),
        decreases lines.len() - i,
    {
        match processor.classify(lines[i].as_str(), encoding) {
            Ok(lc) => {
                proof {
                    assert(ls.take(i + 1).drop_last() =~= ls.take(i as int));
                    assert(ls.take(i + 1).last() == ls[i as int]);
                }
                total = total + 1;
                blank = blank + lc.blank_lines;
            },
            Err(e) => {
                proof {
                    assert(ls[i as int] == lines@[i as int]@);
                    assert(0 <= (i as int) && (i as int) < ls.len() && spec_has_replacement(
                        ls[i as int],
                    ));
                    assert(spec_any_corrupt(ls));
                }
                return Err(e);
            },
        }
        i = i + 1;
    }
    proof {
        assert(ls.take(lines.deep_view().len() as int) =~= ls);
    }
    Ok(LineCount { lines: total, blank_lines: blank, bytes: data.len() as u64 })
}

/// The decimal digit character for `d`.
pub open spec fn spec_dec_digit(d: int) -> char {
    if d == 0 {
        '0'
    } else if d == 1 {
        '1'
    } else if d == 2 {
        '2'
    } else if d == 3 {
        '3'
    } else if d == 4 {
        '4'
    } else if d == 5 {
        '5'
    } else if d == 6 {
        '6'
    } else if d == 7 {
        '7'
    } else if d == 8 {
        '8'
    } else {
        '9'
    }
}

/// `n` written in decimal, without a sign.
pub open spec fn spec_dec(n: int) -> Seq<char>
    decreases n,
{
    if n < 10 {
        seq![spec_dec_digit(n)]
    } else {
        spec_dec(n / 10) + seq![spec_dec_digit(n % 10)]
    }
}

/// `n` written in decimal with a comma before every three trailing
/// digits, as `num_format` writes it for the `en` locale.
pub open spec fn spec_grouped(n: int) -> Seq<char>
    decreases n,
{
    if n < 1000 {
        spec_dec(n)
    } else {
        spec_grouped(n / 1000) + seq![','] + spec_pad3(n % 1000)
    }
}

/// A three-digit group, zero-padded on the left.
pub open spec fn spec_pad3(n: int) -> Seq<char> {
    if n < 10 {
        seq!['0', '0'] + spec_dec(n)
    } else if n < 100 {
        seq!['0'] + spec_dec(n)
    } else {
        spec_dec(n)
    }
}

/// What `humansize` renders a byte count as, under its WINDOWS options: a
/// figure of the count alone.
pub uninterp spec fn human_size_of(n: int) -> Seq<char>;

/// Text wrapped in the ANSI codes for a blue foreground.
pub open spec fn blue_painted(s: Seq<char>) -> Seq<char> {
    "\u{1b}[34m"@ + s + "\u{1b}[0m"@
}

/// Text wrapped in the ANSI codes for dimmed white.
pub open spec fn dim_painted(s: Seq<char>) -> Seq<char> {
    "\u{1b}[2;37m"@ + s + "\u{1b}[0m"@
}

/// One decimal digit as a string.
fn digit_str(d: u64) -> (r: &'static str)
    requires
        d < 10,
    ensures
        r@ == seq![spec_dec_digit(d as int)],
{
    if d == 0 {
        proof {
            reveal_strlit("0");
            assert("0"@ =~= seq![spec_dec_digit(0)]);
        }
        "0"
    } else if d == 1 {
        proof {
            reveal_strlit("1");
            assert("1"@ =~= seq![spec_dec_digit(1)]);
        }
        "1"
    } else if d == 2 {
        proof {
            reveal_strlit("2");
            assert("2"@ =~= seq![spec_dec_digit(2)]);
        }
        "2"
    } else if d == 3 {
        proof {
            reveal_strlit("3");
            assert("3"@ =~= seq![spec_dec_digit(3)]);
        }
        "3"
    } else if d == 4 {
        proof {
            reveal_strlit("4");
            assert("4"@ =~= seq![spec_dec_digit(4)]);
        }
        "4"
    } else if d == 5 {
        proof {
            reveal_strlit("5");
            assert("5"@ =~= seq![spec_dec_digit(5)]);
        }
        "5"
    } else if d == 6 {
        proof {
            reveal_strlit("6");
            assert("6"@ =~= seq![spec_dec_digit(6)]);
        }
        "6"
    } else if d == 7 {
        proof {
            reveal_strlit("7");
            assert("7"@ =~= seq![spec_dec_digit(7)]);
        }
        "7"
    } else if d == 8 {
        proof {
            reveal_strlit("8");
            assert("8"@ =~= seq![spec_dec_digit(8)]);
        }
        "8"
    } else {
        proof {
            reveal_strlit("9");
            assert("9"@ =~= seq![spec_dec_digit(9)]);
        }
        "9"
    }
}

/// `n` written in decimal.
pub fn u64_to_dec(n: u64) -> (r: String)
    ensures
        r@ == spec_dec(n as int),
    decreases n,
{
    if n < 10 {
        String::from_str(digit_str(n))
    } else {
        let mut s = u64_to_dec(n / 10);
        s.append(digit_str(n % 10));
        s
    }
}

/// Relies on `num_format::ToFormattedString::to_formatted_string` with
/// `Locale::en`: decimal digits, a comma before every three trailing ones.
#[verifier::external_body]
fn group_digits(n: u64) -> (r: String)
    ensures
        r@ == spec_grouped(n as int),
{
    n.to_formatted_string(&num_format::Locale::en)
}

/// Relies on `humansize::format_size` with the WINDOWS options.
#[verifier::external_body]
fn format_bytes(n: u64) -> (r: String)
    ensures
        r@ == human_size_of(n as int),
{
    humansize::format_size(n, humansize::WINDOWS)
}

/// Relies on `ansi_term::Colour::paint`: a blue foreground is the codes
/// `ESC [ 3 4 m` before the text and `ESC [ 0 m` after it.
#[verifier::external_body]
fn paint_blue(s: &str) -> (r: String)
    ensures
        r@ == blue_painted(s@),
{
    ansi_term::Colour::Blue.paint(s).to_string()
}

/// Relies on `ansi_term::Style::paint`: dimmed white is the codes
/// `ESC [ 2 ; 3 7 m` before the text and `ESC [ 0 m` after it.
#[verifier::external_body]
fn paint_dim_white(s: &str) -> (r: String)
    ensures
        r@ == dim_painted(s@),
{
    ansi_term::Colour::White.dimmed().paint(s).to_string()
}

/// What `as_fmt_string` renders: the plain or grouped line figure, with
/// the byte size and blank count after it when asked for.
pub open spec fn spec_fmt_string(lc: LineCountView, f: LineCountFormat) -> Seq<char> {
    match f {
        LineCountFormat::Simple { show_bytes } => if show_bytes {
            spec_dec(lc.lines) + "loc "@ + human_size_of(lc.bytes)
        } else {
            spec_dec(lc.lines)
        },
        LineCountFormat::Colour { show_bytes } => if show_bytes {
            blue_painted(spec_grouped(lc.lines)) + " "@ + dim_painted(spec_grouped(lc.blank_lines))
                + dim_painted(" blank"@) + " "@ + dim_painted(human_size_of(lc.bytes))
        } else {
            spec_grouped(lc.lines)
        },
    }
}

impl LineCount {
    /// The bare figure, with the byte size after it when asked for.
    fn as_simple(&self, show_bytes: bool) -> (r: String)
        ensures
            r@ == spec_fmt_string(self@, LineCountFormat::Simple { show_bytes }),
    {
        let loc = u64_to_dec(self.lines);
        if show_bytes {
            let mut s = loc;
            s.append("loc ");
            let bytes = format_bytes(self.bytes);
            s.append(bytes.as_str());
            s
        } else {
            loc
        }
    }

    /// The coloured figure, with blank count and byte size when asked for.
    fn as_colour(&self, show_bytes: bool) -> (r: String)
        ensures
            r@ == spec_fmt_string(self@, LineCountFormat::Colour { show_bytes }),
    {
        let loc = group_digits(self.lines);
        if show_bytes {
            let mut s = paint_blue(loc.as_str());
            s.append(" ");
            let blank = group_digits(self.blank_lines);
            let blank_p = paint_dim_white(blank.as_str());
            s.append(blank_p.as_str());
            let blank_word = paint_dim_white(" blank");
            s.append(blank_word.as_str());
            s.append(" ");
            let bytes = format_bytes(self.bytes);
            let bytes_p = paint_dim_white(bytes.as_str());
            s.append(bytes_p.as_str());
            s
        } else {
            loc
        }
    }

    /// Renders the count in the asked-for format.
    pub fn as_fmt_string(&self, display_format: &LineCountFormat) -> (r: String)
        ensures
            r@ == spec_fmt_string(self@, *display_format),
    {
        match display_format {
            LineCountFormat::Simple { show_bytes } => self.as_simple(*show_bytes),
            LineCountFormat::Colour { show_bytes } => self.as_colour(*show_bytes),
        }
    }
}

/// The confidence attached to an encoding choice: forced by the operator,
/// or detected with a score in basis points of certainty.
#[derive(Debug, Clone, Copy, PartialEq, Eq, Structural)]
pub enum Confidence {
    Forced,
    Detected(u32),
}

/// An encoding choice for one file, with how sure the detector was of it.
pub struct DetectedEncoding {
    pub encoding: EncodingId,
    pub confidence: Confidence,
}

/// Resolves a detector-reported label to an encoding: an unrecognized
/// label falls back to UTF-8 rather than failing.
pub fn detect_encoding(label: &str, confidence: u32) -> (r: DetectedEncoding)
    ensures
        r.encoding@ == resolved_label_name(label@),
        r.confidence == Confidence::Detected(confidence),
{
    match EncodingId::from_label(label) {
        Some(encoding) => DetectedEncoding { encoding, confidence: Confidence::Detected(confidence) },
        None => DetectedEncoding {
            encoding: EncodingId::utf8(),
            confidence: Confidence::Detected(confidence),
        },
    }
}

} // verus!
