//! Cron expressions: accepted by the cron parser, kept as their source text.

use crate::text::{chars_of, char_is_whitespace, is_whitespace};
use crate::timestamp::Timestamp;
use vstd::prelude::*;
use vstd::string::*;

verus! {

/// Whether the cron parser accepts `expr`.
pub uninterp spec fn cron_accepts(expr: Seq<char>) -> bool;

/// What the schedule of `expr` gives as its next time after the given one,
/// in seconds since the Unix epoch; nothing where it gives none.
pub uninterp spec fn cron_next_after(expr: Seq<char>, secs: i64, nanos: u32) -> Option<i64>;

/// A word begins at position `i` of `s`.
pub open spec fn starts_word(s: Seq<char>, i: int) -> bool {
    &&& 0 <= i < s.len()
    &&& !is_whitespace(s[i])
    &&& (i == 0 || is_whitespace(s[i - 1]))
}

/// The number of words in `s`: maximal runs of characters that are not
/// whitespace.
pub open spec fn word_count(s: Seq<char>) -> nat
    decreases s.len(),
{
    if s.len() == 0 {
        0
    } else {
        word_count(s.drop_last()) + if starts_word(s, s.len() - 1) {
            1nat
        } else {
            0nat
        }
    }
}

/// The seconds field that an expression of five fields is given.
pub open spec fn seconds_field() -> Seq<char> {
    "0 "@
}

/// The expression that is handed to the cron parser. The parser wants a
/// seconds field in front; an expression of exactly five fields (minute,
/// hour, day of month, month, day of week) fires at second 0.
pub open spec fn cron_form(source: Seq<char>) -> Seq<char> {
    if word_count(source) == 5 {
        seconds_field() + source
    } else {
        source
    }
}

/// The sources of cron expressions: not empty, no whitespace at the end, and
/// accepted by the cron parser in their `cron_form`.
pub open spec fn cron_source_ok(source: Seq<char>) -> bool {
    &&& source.len() > 0
    &&& !is_whitespace(source.last())
    &&& cron_accepts(cron_form(source))
}

/// Counts the words of `s`.
pub fn count_words(s: &str) -> (n: usize)
    ensures
        n == word_count(s@),
{
    let chars = chars_of(s);
    let mut n: usize = 0;
    let mut i: usize = 0;
    assert(s@.take(0).len() == 0);
    while i < chars.len()
        invariant
            i <= chars@.len(),
            chars@ == s@,
            n == word_count(s@.take(i as int)),
            n <= i,
        decreases chars.len() - i,
    {
        proof {
            let next = s@.take(i + 1);
            assert(next.drop_last() =~= s@.take(i as int));
            assert(starts_word(next, i as int) == starts_word(s@, i as int));
        }
        if !char_is_whitespace(chars[i]) && (i == 0 || char_is_whitespace(chars[i - 1])) {
            n += 1;
        }
        i += 1;
    }
    assert(s@.take(i as int) =~= s@);
    n
}

/// Calls `cron::Schedule::from_str` (through `str::parse`) and tells whether
/// it returned a schedule. Unproved: the answer is what `cron_accepts` names.
#[verifier::external_body]
fn cron_parses(expr: &str) -> (ok: bool)
    ensures
        ok == cron_accepts(expr@),
{
    expr.parse::<::cron::Schedule>().is_ok()
}

/// Parses `expr` again with `cron::Schedule::from_str`, and calls
/// `Schedule::after` on the UTC time of the given timestamp and `next` on the
/// iterator it returns. Unproved: the seconds of the time that comes back are
/// what `cron_next_after` names, and they are later than the seconds given:
/// the schedule looks for its match from one second after the given time
/// on. The timestamp's range keeps the date arithmetic of the call from
/// overflowing.
#[verifier::external_body]
fn cron_after(expr: &str, secs: i64, nanos: u32) -> (r: Option<i64>)
    requires
        cron_accepts(expr@),
        (Timestamp { secs, nanos }).wf(),
    ensures
        r == cron_next_after(expr@, secs, nanos),
        r matches Some(next) ==> next > secs,
{
    match (expr.parse::<::cron::Schedule>(), chrono::DateTime::from_timestamp(secs, nanos)) {
        (Ok(schedule), Some(now)) => schedule.after(&now).next().map(|t| t.timestamp()),
        _ => None,
    }
}

/// A cron expression that the cron parser accepts. Every value of the type
/// holds an admissible source: the field is private, and `parse` is the only
/// way to make one.
#[derive(Debug, PartialEq, Eq)]
pub struct CronExpression {
    source: String,
}

impl Clone for CronExpression {
    fn clone(&self) -> (r: Self)
        ensures
            r@ == self@,
    {
        proof {
            use_type_invariant(self);
        }
        CronExpression { source: self.source.clone() }
    }
}

impl View for CronExpression {
    type V = Seq<char>;

    /// The expression as it was written.
    closed spec fn view(&self) -> Seq<char> {
        self.source@
    }
}

impl CronExpression {
    /// The source is one that `cron_source_ok` admits. This holds of every
    /// value of the type.
    #[verifier::type_invariant]
    pub open spec fn wf(&self) -> bool {
        cron_source_ok(self@)
    }

    /// The text that is handed to the cron parser for `source`.
    pub fn compiled_form(source: &str) -> (r: String)
        ensures
            r@ == cron_form(source@),
    {
        if count_words(source) == 5 {
            "0 ".to_owned().concat(source)
        } else {
            source.to_owned()
        }
    }

    /// Reads a cron expression of five, six or seven fields, or one of the
    /// cron parser's own shorthands.
    pub fn parse(source: &str) -> (r: Option<CronExpression>)
        ensures
            r is Some <==> cron_source_ok(source@),
            r matches Some(c) ==> c@ == source@ && c.wf(),
    {
        let chars = chars_of(source);
        if chars.len() == 0 || char_is_whitespace(chars[chars.len() - 1]) {
            return None;
        }
        let form = CronExpression::compiled_form(source);
        if cron_parses(form.as_str()) {
            Some(CronExpression { source: source.to_owned() })
        } else {
            None
        }
    }

    /// The expression as it was written.
    pub fn source(&self) -> (r: &str)
        ensures
            r@ == self@,
    {
        self.source.as_str()
    }

    /// The first time after `now` at which the expression fires, in seconds
    /// since the Unix epoch.
    pub fn next_after(&self, now: Timestamp) -> (r: Option<i64>)
        requires
            now.wf(),
        ensures
            r == cron_next_after(cron_form(self@), now.secs, now.nanos),
            r matches Some(next) ==> next > now.secs,
    {
        proof {
            use_type_invariant(self);
        }
        let form = CronExpression::compiled_form(self.source.as_str());
        cron_after(form.as_str(), now.secs, now.nanos)
    }
}

} // verus!
