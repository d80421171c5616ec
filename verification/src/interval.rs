//! Fixed intervals, read and written as human-readable duration text.

use crate::text::{chars_of, char_is_whitespace, is_trimmed, is_whitespace};
use vstd::prelude::*;
use vstd::string::*;

verus! {

/// Nanoseconds in one second.
pub const NANOS_PER_SEC: u32 = 1_000_000_000;

/// A span of time: whole seconds and the nanoseconds beyond them.
#[derive(Clone, Copy, Debug, PartialEq, Eq, Structural)]
pub struct Interval {
    pub secs: u64,
    pub nanos: u32,
}

/// What the duration parser makes of `text`: seconds and nanoseconds, or
/// nothing where it rejects the text.
pub uninterp spec fn parsed_duration(text: Seq<char>) -> Option<(u64, u32)>;

/// The text that the duration formatter writes for a span of time.
pub uninterp spec fn formatted_duration(secs: u64, nanos: u32) -> Seq<char>;

/// A decimal digit.
pub open spec fn is_digit(c: char) -> bool {
    '0' <= c <= '9'
}

/// A character that unit names are written with.
pub open spec fn is_unit_letter(c: char) -> bool {
    ||| 'a' <= c <= 'z'
    ||| 'A' <= c <= 'Z'
    ||| c == '\u{b5}'
}

/// The last character of `s` that is not whitespace is a unit letter.
pub open spec fn after_unit(s: Seq<char>) -> bool
    decreases s.len(),
{
    if s.len() == 0 {
        false
    } else if is_whitespace(s.last()) {
        after_unit(s.drop_last())
    } else {
        is_unit_letter(s.last())
    }
}

/// A duration text is a row of terms, each a number and a unit. A term
/// begins at position `i` if a digit stands there and a unit came last
/// before it: the duration parser begins a new number exactly at such a
/// digit.
pub open spec fn starts_term(s: Seq<char>, i: int) -> bool {
    &&& 0 < i < s.len()
    &&& is_digit(s[i])
    &&& after_unit(s.take(i))
}

/// The position at which the last term of `s` begins, or 0 where `s` holds
/// one term at most.
pub open spec fn last_term_start(s: Seq<char>) -> int
    decreases s.len(),
{
    if s.len() == 0 {
        0
    } else if starts_term(s, s.len() - 1) {
        s.len() - 1
    } else {
        last_term_start(s.drop_last())
    }
}

/// No second term begins in `s`.
pub open spec fn is_single_term(s: Seq<char>) -> bool {
    forall|i: int| !#[trigger] starts_term(s, i)
}

/// The interval that the duration parser makes of `text`.
pub open spec fn parsed_term(text: Seq<char>) -> Option<Interval> {
    match parsed_duration(text) {
        Some(d) => Some(Interval { secs: d.0, nanos: d.1 }),
        None => None,
    }
}

/// The sum of two intervals, where its seconds fit in a `u64`.
pub open spec fn sum_of(a: Interval, b: Interval) -> Option<Interval> {
    let nanos = a.nanos + b.nanos;
    let carry: int = if nanos >= NANOS_PER_SEC {
        1
    } else {
        0
    };
    let secs = a.secs + b.secs + carry;
    if secs <= u64::MAX {
        Some(Interval { secs: secs as u64, nanos: (nanos - carry * NANOS_PER_SEC) as u32 })
    } else {
        None
    }
}

/// The sum of the terms of `s`, each read by itself: nothing where the
/// duration parser rejects one of them, or where the sum is beyond the
/// longest interval.
pub open spec fn terms_total(s: Seq<char>) -> Option<Interval>
    decreases s.len(),
{
    let start = last_term_start(s);
    if 0 < start < s.len() {
        match (terms_total(s.take(start)), parsed_term(s.skip(start))) {
            (Some(before), Some(last)) => sum_of(before, last),
            _ => None,
        }
    } else {
        parsed_term(s)
    }
}

/// The interval that `text` stands for: what the duration parser makes of
/// it, given that its terms add up to an interval.
///
/// The duration parser adds up the terms as it reads them, and panics
/// where its total stands at `u64::MAX` seconds and the nanoseconds come to
/// another full second. A text whose terms add up within the longest
/// interval cannot bring it there: every total on the way is a part of that
/// sum. Where the terms do not add up, the duration parser has no interval
/// for the text either: it rejects the term that it would reject alone, and
/// a sum beyond the longest interval is an overflow to it.
pub open spec fn parsed_interval(text: Seq<char>) -> Option<Interval> {
    if terms_total(text) is Some {
        parsed_term(text)
    } else {
        None
    }
}

/// Whether a term begins at `j` depends only on what stands up to `j`.
pub proof fn lemma_starts_term_prefix(s: Seq<char>, n: int, j: int)
    requires
        0 <= j < n <= s.len(),
    ensures
        starts_term(s.take(n), j) == starts_term(s, j),
{
    assert(s.take(n).take(j) =~= s.take(j));
}

/// `last_term_start` is 0 or a position at which a term begins, and no term
/// begins after it.
pub proof fn lemma_last_term_start(s: Seq<char>)
    ensures
        0 <= last_term_start(s),
        last_term_start(s) > 0 ==> starts_term(s, last_term_start(s)),
        forall|j: int| j > last_term_start(s) ==> !#[trigger] starts_term(s, j),
    decreases s.len(),
{
    if s.len() == 0 {
    } else if starts_term(s, s.len() - 1) {
    } else {
        let init = s.drop_last();
        lemma_last_term_start(init);
        let r = last_term_start(init);
        if r > 0 {
            lemma_starts_term_prefix(s, s.len() - 1, r);
        }
        assert forall|j: int| j > r implies !#[trigger] starts_term(s, j) by {
            if 0 < j < s.len() - 1 {
                lemma_starts_term_prefix(s, s.len() - 1, j);
            }
        }
    }
}

/// A position at which a term begins (or 0), with no term beginning after
/// it, is the `last_term_start`.
pub proof fn lemma_last_term_start_unique(s: Seq<char>, b: int)
    requires
        b == 0 || starts_term(s, b),
        forall|j: int| j > b ==> !#[trigger] starts_term(s, j),
    ensures
        last_term_start(s) == b,
{
    lemma_last_term_start(s);
}

/// What ends in a unit still does so with something put in front.
pub proof fn lemma_after_unit_suffix(x: Seq<char>, y: Seq<char>)
    requires
        after_unit(y),
    ensures
        after_unit(x + y),
    decreases y.len(),
{
    let whole = x + y;
    assert(whole.last() == y.last());
    if is_whitespace(y.last()) {
        lemma_after_unit_suffix(x, y.drop_last());
        assert(whole.drop_last() =~= x + y.drop_last());
    }
}

/// The stretch of `s` from `b` to `e` is a single term where no term of `s`
/// begins between the two.
pub proof fn lemma_piece_is_single_term(s: Seq<char>, b: int, e: int)
    requires
        0 <= b <= e <= s.len(),
        forall|j: int| b < j < e ==> !#[trigger] starts_term(s, j),
    ensures
        is_single_term(s.subrange(b, e)),
{
    let piece = s.subrange(b, e);
    assert forall|i: int| !#[trigger] starts_term(piece, i) by {
        if starts_term(piece, i) {
            lemma_after_unit_suffix(s.take(b), piece.take(i));
            assert(s.take(b) + piece.take(i) =~= s.take(b + i));
            assert(piece[i] == s[b + i]);
            assert(starts_term(s, b + i));
        }
    }
}

/// A text of a single term stands for what the duration parser makes of it,
/// whatever that is: only a text of several terms is asked to add up.
pub proof fn law_single_term_is_read(text: Seq<char>)
    requires
        is_single_term(text),
    ensures
        terms_total(text) == parsed_term(text),
        parsed_interval(text) == parsed_term(text),
{
    lemma_last_term_start(text);
}

/// Calls `humantime::parse_duration` and hands back the seconds and
/// nanoseconds of the duration it returns, or `None` for its error.
/// Unproved: the result is what `parsed_duration` names, and its
/// nanoseconds are below one second, as `Duration::subsec_nanos` promises.
/// The parser panics only where its running total stands at `u64::MAX`
/// seconds and the nanoseconds come to another full second. A single term
/// cannot bring it there, and neither can a text whose terms add up within
/// the longest interval.
#[verifier::external_body]
fn parse_duration(text: &str) -> (r: Option<(u64, u32)>)
    requires
        is_single_term(text@) || terms_total(text@) is Some,
    ensures
        r == parsed_duration(text@),
        r matches Some(d) ==> d.1 < NANOS_PER_SEC,
{
    humantime::parse_duration(text).ok().map(|d| (d.as_secs(), d.subsec_nanos()))
}

/// Calls `humantime::format_duration` and collects what it displays.
/// Unproved: the result is what `formatted_duration` names; it is not empty
/// and has no whitespace at either end (every item the formatter writes is a
/// number followed by a unit); the duration parser reads it back as the same
/// duration (the formatter's documented guarantee); and its terms add up to
/// an interval (each item is a term that the parser reads by itself, and
/// their sum is the duration that was written).
#[verifier::external_body]
fn format_duration(secs: u64, nanos: u32) -> (r: String)
    requires
        nanos < NANOS_PER_SEC,
    ensures
        r@ == formatted_duration(secs, nanos),
        r@.len() > 0 && is_trimmed(r@),
        parsed_duration(r@) == Some((secs, nanos)),
        terms_total(r@) is Some,
{
    humantime::format_duration(std::time::Duration::new(secs, nanos)).to_string()
}

/// Reads `text` with the duration parser.
fn parse_text(text: &str) -> (r: Option<Interval>)
    requires
        is_single_term(text@) || terms_total(text@) is Some,
    ensures
        r == parsed_term(text@),
        r matches Some(iv) ==> iv.wf(),
{
    match parse_duration(text) {
        Some(d) => Some(Interval { secs: d.0, nanos: d.1 }),
        None => None,
    }
}

/// Adds a term, read by itself, to the total of the terms before it.
fn add_term(before: Option<Interval>, term: &str) -> (r: Option<Interval>)
    requires
        is_single_term(term@),
        before matches Some(iv) ==> iv.wf(),
    ensures
        r == match (before, parsed_term(term@)) {
            (Some(a), Some(b)) => sum_of(a, b),
            _ => None,
        },
        r matches Some(iv) ==> iv.wf(),
{
    match before {
        Some(a) => match parse_text(term) {
            Some(b) => a.checked_add(b),
            None => None,
        },
        None => None,
    }
}

/// Decides `is_unit_letter`.
pub fn char_is_unit_letter(c: char) -> (b: bool)
    ensures
        b == is_unit_letter(c),
{
    ('a' <= c && c <= 'z') || ('A' <= c && c <= 'Z') || c == '\u{b5}'
}

impl Interval {
    /// The nanoseconds stay below one second.
    pub open spec fn wf(&self) -> bool {
        self.nanos < NANOS_PER_SEC
    }

    /// The whole span in nanoseconds.
    pub open spec fn total_nanos(&self) -> nat {
        (self.secs * 1_000_000_000 + self.nanos) as nat
    }

    /// An interval of whole seconds.
    pub fn from_secs(secs: u64) -> (iv: Interval)
        ensures
            iv == (Interval { secs, nanos: 0 }),
            iv.wf(),
    {
        Interval { secs, nanos: 0 }
    }

    /// The sum of two intervals, or nothing where it is beyond the longest
    /// interval.
    pub fn checked_add(self, other: Interval) -> (r: Option<Interval>)
        requires
            self.wf(),
            other.wf(),
        ensures
            r == sum_of(self, other),
            r matches Some(iv) ==> iv.wf(),
    {
        let mut nanos: u32 = self.nanos + other.nanos;
        let mut carry: u64 = 0;
        if nanos >= NANOS_PER_SEC {
            nanos = nanos - NANOS_PER_SEC;
            carry = 1;
        }
        match self.secs.checked_add(other.secs) {
            Some(secs) => match secs.checked_add(carry) {
                Some(secs) => Some(Interval { secs, nanos }),
                None => None,
            },
            None => None,
        }
    }

    /// Reads a human-readable duration such as `1h 30m`.
    pub fn parse(text: &str) -> (r: Option<Interval>)
        ensures
            r == parsed_interval(text@),
            r matches Some(iv) ==> iv.wf(),
    {
        let chars = chars_of(text);
        let n = chars.len();
        let mut begin: usize = 0;
        let mut total: Option<Interval> = None;
        let mut after: bool = false;
        let mut i: usize = 0;
        assert(text@.take(0).len() == 0);
        while i < n
            invariant
                i <= n == chars@.len(),
                chars@ == text@,
                begin == 0 || (begin < i && starts_term(text@, begin as int)),
                forall|j: int| begin < j < i ==> !#[trigger] starts_term(text@, j),
                after == after_unit(text@.take(i as int)),
                begin > 0 ==> total == terms_total(text@.take(begin as int)),
                total matches Some(iv) ==> iv.wf(),
            decreases n - i,
        {
            let c = chars[i];
            if i > 0 && '0' <= c && c <= '9' && after {
                let piece = text.substring_char(begin, i);
                proof {
                    let seen = text@.take(i as int);
                    lemma_piece_is_single_term(text@, begin as int, i as int);
                    assert forall|j: int| j > begin implies !#[trigger] starts_term(seen, j) by {
                        if j < i {
                            lemma_starts_term_prefix(text@, i as int, j);
                        }
                    }
                    if begin > 0 {
                        lemma_starts_term_prefix(text@, i as int, begin as int);
                    }
                    lemma_last_term_start_unique(seen, begin as int);
                    assert(seen.take(begin as int) =~= text@.take(begin as int));
                    assert(seen.skip(begin as int) =~= text@.subrange(begin as int, i as int));
                    assert(text@.subrange(0, i as int) =~= seen);
                }
                total = if begin == 0 {
                    parse_text(piece)
                } else {
                    add_term(total, piece)
                };
                begin = i;
            }
            proof {
                let next = text@.take(i + 1);
                assert(next.drop_last() =~= text@.take(i as int));
                assert(next.last() == c);
            }
            if !char_is_whitespace(c) {
                after = char_is_unit_letter(c);
            }
            i += 1;
        }
        proof {
            lemma_piece_is_single_term(text@, begin as int, n as int);
            lemma_last_term_start_unique(text@, begin as int);
            assert(text@.subrange(0, n as int) =~= text@);
            assert(text@.skip(begin as int) =~= text@.subrange(begin as int, n as int));
        }
        if begin == 0 {
            return parse_text(text);
        }
        match add_term(total, text.substring_char(begin, n)) {
            Some(_) => parse_text(text),
            None => None,
        }
    }

    /// Writes the interval as human-readable duration text. Read again, the
    /// text gives this interval back.
    pub fn render(&self) -> (r: String)
        requires
            self.wf(),
        ensures
            r@ == formatted_duration(self.secs, self.nanos),
            r@.len() > 0 && is_trimmed(r@),
            parsed_interval(r@) == Some(*self),
    {
        format_duration(self.secs, self.nanos)
    }
}

} // verus!
