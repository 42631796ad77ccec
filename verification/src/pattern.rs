//! Regular expressions: matching a text and drawing an example of a pattern.

use vstd::prelude::*;
use vstd::string::StringExecFns;
use vstd::utf8::encode_utf8;

use rand::Rng;

verus! {

/// What a search for `pattern` in `text` finds: `None` where `pattern` is not
/// a regular expression the engine accepts, else whether some part of `text`
/// matches it.
pub uninterp spec fn regex_search(pattern: Seq<char>, text: Seq<char>) -> Option<bool>;

/// Calls `regex::Regex::new` on `pattern` and `Regex::is_match` on `text`.
/// The contract names the outcome of the two calls `regex_search`; no step
/// of the engine is proved here.
#[verifier::external_body]
fn search(pattern: &str, text: &str) -> (found: Option<bool>)
    ensures
        found == regex_search(pattern@, text@),
{
    match regex::Regex::new(pattern) {
        Ok(compiled) => Some(compiled.is_match(text)),
        Err(_) => None,
    }
}

/// The most that the counts written in a pattern may multiply to, and the
/// most bytes a pattern may have, for an example of it to be drawn. The
/// generator multiplies the counts of nested repetitions in 32 bits without
/// a check, draws as many times, and sums the sizes in a machine word: the
/// limit keeps all three in range and the text drawn short enough for a
/// URL.
pub const DRAW_LIMIT: u64 = 10_000;

/// `value`, or one more than the limit where it is beyond the limit.
pub open spec fn capped(value: int) -> int {
    if value > DRAW_LIMIT {
        DRAW_LIMIT + 1
    } else {
        value
    }
}

/// Where a scan of a pattern stands.
pub struct Scan {
    /// The product of the counts read so far, capped.
    pub product: int,
    /// The count being read, capped; 0 where none is being read.
    pub number: int,
    /// The last brace read was an opening one.
    pub counting: bool,
    /// The last byte was `(`.
    pub opened: bool,
    /// The bytes since the last `(?` were letters and dashes: the flags of
    /// a group are being read.
    pub flags: bool,
    /// Among the flags of some group was `x`, behind which the pattern may
    /// hold blanks and comments, also inside a count.
    pub verbose: bool,
}

impl Scan {
    /// The product once the count being read has ended. A count of 0
    /// multiplies like 1.
    pub open spec fn closed(self) -> int {
        capped(
            self.product * if self.number > 1 {
                self.number
            } else {
                1
            },
        )
    }
}

/// `byte` is a decimal digit.
pub open spec fn is_digit(byte: u8) -> bool {
    48 <= byte <= 57
}

/// `byte` may stand among the flags of a group: a letter or a dash.
pub open spec fn is_flag_byte(byte: u8) -> bool {
    65 <= byte <= 90 || 97 <= byte <= 122 || byte == 45
}

/// The scan of the first `upto` bytes. A count is a run of decimal digits
/// behind an opening brace and before the next closing one: every counted
/// repetition is written so, and a number outside braces is no count.
pub open spec fn scanned(bytes: Seq<u8>, upto: int) -> Scan
    decreases upto,
{
    if upto <= 0 {
        Scan { product: 1, number: 0, counting: false, opened: false, flags: false, verbose: false }
    } else {
        let before = scanned(bytes, upto - 1);
        let byte = bytes[upto - 1];
        let reads_digit = before.counting && is_digit(byte);
        Scan {
            product: if reads_digit {
                before.product
            } else {
                before.closed()
            },
            number: if reads_digit {
                capped(before.number * 10 + (byte - 48))
            } else {
                0
            },
            counting: byte == 123 || (before.counting && byte != 125),
            opened: byte == 40,
            flags: (before.opened && byte == 63) || (before.flags && is_flag_byte(byte)),
            verbose: before.verbose || (before.flags && byte == 120),
        }
    }
}

/// The pattern is short, no group of it sets the flag `x`, and its counts
/// multiply to little.
pub open spec fn drawable_bytes(bytes: Seq<u8>) -> bool {
    let scan = scanned(bytes, bytes.len() as int);
    bytes.len() <= DRAW_LIMIT && !scan.verbose && scan.closed() <= DRAW_LIMIT
}

/// An example of the pattern may be asked for.
pub open spec fn drawable(pattern: Seq<char>) -> bool {
    drawable_bytes(encode_utf8(pattern))
}

/// Tells whether an example of the pattern with these bytes may be asked
/// for.
pub fn is_drawable_bytes(bytes: &[u8]) -> (bounded: bool)
    ensures
        bounded == drawable_bytes(bytes@),
{
    let length: usize = bytes.len();
    if length as u64 > DRAW_LIMIT {
        return false;
    }
    let mut product: u64 = 1;
    let mut number: u64 = 0;
    let mut counting = false;
    let mut opened = false;
    let mut flags = false;
    let mut verbose = false;
    let mut k: usize = 0;
    while k < length
        invariant
            k <= length == bytes@.len(),
            0 <= product <= DRAW_LIMIT + 1,
            0 <= number <= DRAW_LIMIT + 1,
            scanned(bytes@, k as int) == (Scan {
                product: product as int,
                number: number as int,
                counting,
                opened,
                flags,
                verbose,
            }),
        decreases length - k,
    {
        let byte = bytes[k];
        if counting && 48 <= byte && byte <= 57 {
            let digit: u64 = (byte - 48) as u64;
            let read: u64 = number * 10 + digit;
            number = if read > DRAW_LIMIT { DRAW_LIMIT + 1 } else { read };
        } else {
            let factor: u64 = if number > 1 { number } else { 1 };
            assert(product * factor <= 100_020_001) by (nonlinear_arith)
                requires
                    0 <= product <= 10_001,
                    0 <= factor <= 10_001,
            ;
            let multiplied: u64 = product * factor;
            product = if multiplied > DRAW_LIMIT { DRAW_LIMIT + 1 } else { multiplied };
            number = 0;
        }
        let among_flags = (65 <= byte && byte <= 90) || (97 <= byte && byte <= 122) || byte == 45;
        verbose = verbose || (flags && byte == 120);
        flags = (opened && byte == 63) || (flags && among_flags);
        counting = byte == 123 || (counting && byte != 125);
        opened = byte == 40;
        k += 1;
    }
    let factor: u64 = if number > 1 { number } else { 1 };
    assert(product * factor <= 100_020_001) by (nonlinear_arith)
        requires
            0 <= product <= 10_001,
            0 <= factor <= 10_001,
    ;
    !verbose && product * factor <= DRAW_LIMIT
}

/// Tells whether an example of the pattern may be asked for.
pub fn is_drawable(pattern: &str) -> (bounded: bool)
    ensures
        bounded == drawable(pattern@),
{
    is_drawable_bytes(pattern.as_bytes())
}

/// Calls `regex_syntax::Parser::parse` (Unicode classes off),
/// `rand_regex::Regex::with_hir` with no extra repetitions and `Rng::sample`
/// on the thread's generator. The text drawn differs from call to call, so
/// nothing is claimed of it. The generator multiplies the counts of nested
/// repetitions without a check and draws as many times; the patterns are
/// therefore those whose counts, read as the parser reads them, multiply to
/// no more than the limit.
#[verifier::external_body]
fn sample(pattern: &str) -> (drawn: Option<String>)
    requires
        drawable(pattern@),
{
    let parsed = regex_syntax::ParserBuilder::new().unicode(false).build().parse(pattern).ok()?;
    let generator = rand_regex::Regex::with_hir(parsed, 0).ok()?;
    rand::thread_rng().sample::<Result<String, std::string::FromUtf8Error>, _>(&generator).ok()
}

/// `pattern` wrapped so that it has to match from the first character to the
/// last.
pub open spec fn anchored(pattern: Seq<char>) -> Seq<char> {
    "^(?:"@ + pattern + ")$"@
}

/// `pattern` is a regular expression and matches some part of `text`.
pub open spec fn matches_within(pattern: Seq<char>, text: Seq<char>) -> bool {
    regex_search(pattern, text) == Some(true)
}

/// `pattern` wrapped like `anchored`, with the closing on a line of its
/// own: the form for a pattern that ends in a comment, which would
/// swallow a closing on the same line.
pub open spec fn anchored_on_new_line(pattern: Seq<char>) -> Seq<char> {
    "^(?:"@ + pattern + "\n)$"@
}

/// What two searches with the anchored forms of a pattern say of a text:
/// the first form decides where it is a regular expression, the second
/// where the first is none.
pub open spec fn whole_verdict(closed: Option<bool>, on_new_line: Option<bool>) -> bool {
    match closed {
        Some(found) => found,
        None => on_new_line == Some(true),
    }
}

/// `pattern` is a regular expression and, anchored, matches the whole of
/// `text`.
pub open spec fn matches_whole(pattern: Seq<char>, text: Seq<char>) -> bool {
    well_formed(pattern) && whole_verdict(
        regex_search(anchored(pattern), text),
        regex_search(anchored_on_new_line(pattern), text),
    )
}

/// `pattern` is a regular expression the engine accepts.
pub open spec fn well_formed(pattern: Seq<char>) -> bool {
    regex_search(pattern, Seq::<char>::empty()) is Some
}

/// The verdict on a search: a pattern that did not compile matches nothing.
pub fn verdict(found: Option<bool>) -> (matched: bool)
    ensures
        matched == (found == Some(true)),
{
    match found {
        Some(hit) => hit,
        None => false,
    }
}

/// Builds the anchored form of `pattern`.
pub fn anchor(pattern: &str) -> (wrapped: String)
    ensures
        wrapped@ == anchored(pattern@),
{
    let mut wrapped = String::from_str("^(?:");
    wrapped.append(pattern);
    wrapped.append(")$");
    wrapped
}

/// Tells whether `pattern` matches some part of `text`.
pub fn is_match(pattern: &str, text: &str) -> (matched: bool)
    ensures
        matched == matches_within(pattern@, text@),
{
    verdict(search(pattern, text))
}

/// Builds the anchored form of `pattern` that closes on a line of its own.
pub fn anchor_on_new_line(pattern: &str) -> (wrapped: String)
    ensures
        wrapped@ == anchored_on_new_line(pattern@),
{
    let mut wrapped = String::from_str("^(?:");
    wrapped.append(pattern);
    wrapped.append("\n)$");
    wrapped
}

/// The verdict on the searches with the two anchored forms.
pub fn verdict_on_whole(closed: Option<bool>, on_new_line: Option<bool>) -> (matched: bool)
    ensures
        matched == whole_verdict(closed, on_new_line),
{
    match closed {
        Some(found) => found,
        None => verdict(on_new_line),
    }
}

/// Tells whether `pattern` matches the whole of `text`. A pattern that is
/// no regular expression matches nothing.
pub fn is_full_match(pattern: &str, text: &str) -> (matched: bool)
    ensures
        matched == matches_whole(pattern@, text@),
{
    if !is_well_formed(pattern) {
        return false;
    }
    let closed = search(anchor(pattern).as_str(), text);
    let on_new_line = match closed {
        Some(_) => None,
        None => search(anchor_on_new_line(pattern).as_str(), text),
    };
    verdict_on_whole(closed, on_new_line)
}

/// Tells whether `pattern` is a regular expression.
pub fn is_well_formed(pattern: &str) -> (accepted: bool)
    ensures
        accepted == well_formed(pattern@),
{
    let nothing = "";
    proof {
        reveal_strlit("");
        assert(nothing@ =~= Seq::<char>::empty());
    }
    search(pattern, nothing).is_some()
}

/// What stands for a pattern once the generator was asked: the text it drew,
/// or the empty text where it drew none.
pub open spec fn example_or_empty(drawn: Option<Seq<char>>) -> Seq<char> {
    match drawn {
        Some(text) => text,
        None => Seq::empty(),
    }
}

/// Replaces a failed draw by the empty text.
pub fn or_empty(drawn: Option<String>) -> (text: String)
    ensures
        text@ == example_or_empty(drawn.deep_view()),
{
    match drawn {
        Some(text) => text,
        None => String::new(),
    }
}

/// A text may be drawn for `pattern`: it is a regular expression, and an
/// example of it may be asked for.
pub open spec fn can_generate(pattern: Seq<char>) -> bool {
    well_formed(pattern) && drawable(pattern)
}

/// What is kept of a draw: the text where one was drawn and `pattern`
/// matches it, nothing otherwise.
pub open spec fn kept_draw(pattern: Seq<char>, drawn: Option<Seq<char>>) -> Option<Seq<char>> {
    match drawn {
        Some(text) => if matches_within(pattern, text) {
            Some(text)
        } else {
            None
        },
        None => None,
    }
}

/// Keeps a drawn text only where `pattern` matches it.
pub fn keep_matching(pattern: &str, drawn: Option<String>) -> (kept: Option<String>)
    ensures
        kept.deep_view() == kept_draw(pattern@, drawn.deep_view()),
{
    match drawn {
        Some(text) => {
            if is_match(pattern, text.as_str()) {
                Some(text)
            } else {
                None
            }
        },
        None => None,
    }
}

/// Draws a text that `pattern` matches, anew at each call. A pattern that
/// is no regular expression, one whose example may not be asked for and one
/// that the generator cannot serve give `None`.
pub fn try_generate(pattern: &str) -> (drawn: Option<String>)
    ensures
        drawn matches Some(text) ==> can_generate(pattern@) && matches_within(pattern@, text@),
{
    if is_well_formed(pattern) && is_drawable(pattern) {
        keep_matching(pattern, sample(pattern))
    } else {
        None
    }
}

} // verus!
