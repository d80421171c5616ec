//! The schedule of a job: a fixed interval or a cron expression, with the
//! text form in which labels carry it.

use crate::cron_expr::{cron_accepts, cron_form, cron_source_ok, CronExpression};
use crate::interval::{formatted_duration, parsed_interval, Interval};
use crate::text::{
    has_prefix, is_trimmed, is_whitespace, lemma_trimmed, str_eq, strip_prefix, trim, trimmed,
};
use vstd::prelude::*;
use vstd::string::*;

verus! {

/// When a job fires.
#[derive(Clone, Debug, PartialEq, Eq)]
pub enum JobSchedule {
    /// Every fixed interval; the first fire comes one full interval after
    /// the start.
    Every(Interval),
    /// At each time that matches a cron expression.
    Cron(CronExpression),
}

/// A schedule as a plain value.
pub enum ScheduleView {
    Every(Interval),
    Cron(Seq<char>),
}

/// Why a schedule definition was not read.
#[derive(Clone, Copy, Debug, PartialEq, Eq, Structural)]
pub enum ScheduleError {
    /// The definition matches none of the recognised forms.
    UnsupportedSchedule,
}

/// Which of the recognised forms a schedule definition has.
#[derive(Clone, Copy, Debug, PartialEq, Eq)]
pub enum ScheduleForm<'a> {
    /// `@every ` and the duration text that follows it.
    Every(&'a str),
    /// `@cron ` and the expression that follows it.
    Cron(&'a str),
    /// One of `@hourly`, `@daily`, `@weekly`, `@monthly`, as its interval.
    Shorthand(Interval),
    /// Anything else: the whole trimmed definition, to be tried as a cron
    /// expression.
    Raw(&'a str),
}

/// A schedule form as a plain value.
pub enum FormView {
    Every(Seq<char>),
    Cron(Seq<char>),
    Shorthand(Interval),
    Raw(Seq<char>),
}

pub open spec fn every_prefix() -> Seq<char> {
    "@every "@
}

pub open spec fn cron_prefix() -> Seq<char> {
    "@cron "@
}

pub const SECS_PER_HOUR: u64 = 3600;

pub const SECS_PER_DAY: u64 = 86_400;

pub const SECS_PER_WEEK: u64 = 604_800;

/// A month is counted as thirty days.
pub const SECS_PER_MONTH: u64 = 2_592_000;

/// The interval that a shorthand stands for.
pub open spec fn shorthand_interval(s: Seq<char>) -> Option<Interval> {
    if s == "@hourly"@ {
        Some(Interval { secs: SECS_PER_HOUR, nanos: 0 })
    } else if s == "@daily"@ {
        Some(Interval { secs: SECS_PER_DAY, nanos: 0 })
    } else if s == "@weekly"@ {
        Some(Interval { secs: SECS_PER_WEEK, nanos: 0 })
    } else if s == "@monthly"@ {
        Some(Interval { secs: SECS_PER_MONTH, nanos: 0 })
    } else {
        None
    }
}

/// The form of a definition. The forms are tried in this order on the
/// trimmed text: the `@every ` prefix, the `@cron ` prefix, the shorthands,
/// and last the raw cron expression.
pub open spec fn schedule_form(text: Seq<char>) -> FormView {
    let s = trimmed(text);
    if has_prefix(s, every_prefix()) {
        FormView::Every(s.skip(every_prefix().len() as int))
    } else if has_prefix(s, cron_prefix()) {
        FormView::Cron(s.skip(cron_prefix().len() as int))
    } else {
        match shorthand_interval(s) {
            Some(iv) => FormView::Shorthand(iv),
            None => FormView::Raw(s),
        }
    }
}

/// The schedule that a form gives, once the parsers have had their say:
/// `duration` is the interval that the duration parser found, `cron` the
/// source that the cron parser accepted. An `Every` form needs the first, a
/// `Cron` or `Raw` form the second, a shorthand neither.
pub open spec fn resolved_with(
    form: FormView,
    duration: Option<Interval>,
    cron: Option<Seq<char>>,
) -> Option<ScheduleView> {
    match form {
        FormView::Every(_) => match duration {
            Some(iv) => Some(ScheduleView::Every(iv)),
            None => None,
        },
        FormView::Shorthand(iv) => Some(ScheduleView::Every(iv)),
        _ => match cron {
            Some(source) => Some(ScheduleView::Cron(source)),
            None => None,
        },
    }
}

/// The interval that the duration parser finds in a form.
pub open spec fn form_duration(form: FormView) -> Option<Interval> {
    match form {
        FormView::Every(rest) => parsed_interval(rest),
        _ => None,
    }
}

/// The source that the cron parser accepts in a form.
pub open spec fn form_cron(form: FormView) -> Option<Seq<char>> {
    match form {
        FormView::Cron(rest) => if cron_source_ok(rest) {
            Some(rest)
        } else {
            None
        },
        FormView::Raw(s) => if cron_source_ok(s) {
            Some(s)
        } else {
            None
        },
        _ => None,
    }
}

/// The schedule that a form gives.
pub open spec fn resolved_form(form: FormView) -> Option<ScheduleView> {
    resolved_with(form, form_duration(form), form_cron(form))
}

/// The schedule that a definition stands for, if it stands for one.
pub open spec fn parse_schedule(text: Seq<char>) -> Option<ScheduleView> {
    resolved_form(schedule_form(text))
}

/// The text form of a schedule.
pub open spec fn rendered(schedule: ScheduleView) -> Seq<char> {
    match schedule {
        ScheduleView::Every(iv) => every_prefix() + formatted_duration(iv.secs, iv.nanos),
        ScheduleView::Cron(source) => cron_prefix() + source,
    }
}

impl<'a> View for ScheduleForm<'a> {
    type V = FormView;

    open spec fn view(&self) -> FormView {
        match *self {
            ScheduleForm::Every(rest) => FormView::Every(rest@),
            ScheduleForm::Cron(rest) => FormView::Cron(rest@),
            ScheduleForm::Shorthand(iv) => FormView::Shorthand(iv),
            ScheduleForm::Raw(s) => FormView::Raw(s@),
        }
    }
}

impl View for JobSchedule {
    type V = ScheduleView;

    open spec fn view(&self) -> ScheduleView {
        match *self {
            JobSchedule::Every(iv) => ScheduleView::Every(iv),
            JobSchedule::Cron(expr) => ScheduleView::Cron(expr@),
        }
    }
}

/// The interval of a shorthand, if `s` is one.
pub fn shorthand(s: &str) -> (r: Option<Interval>)
    ensures
        r == shorthand_interval(s@),
{
    if str_eq(s, "@hourly") {
        Some(Interval::from_secs(SECS_PER_HOUR))
    } else if str_eq(s, "@daily") {
        Some(Interval::from_secs(SECS_PER_DAY))
    } else if str_eq(s, "@weekly") {
        Some(Interval::from_secs(SECS_PER_WEEK))
    } else if str_eq(s, "@monthly") {
        Some(Interval::from_secs(SECS_PER_MONTH))
    } else {
        None
    }
}

/// Tells which form a schedule definition has, without judging the duration
/// or the cron expression in it.
pub fn classify<'a>(text: &'a str) -> (form: ScheduleForm<'a>)
    ensures
        form@ == schedule_form(text@),
{
    let s = trim(text);
    if let Some(rest) = strip_prefix(s, "@every ") {
        return ScheduleForm::Every(rest);
    }
    if let Some(rest) = strip_prefix(s, "@cron ") {
        return ScheduleForm::Cron(rest);
    }
    match shorthand(s) {
        Some(iv) => ScheduleForm::Shorthand(iv),
        None => ScheduleForm::Raw(s),
    }
}

/// An optional cron expression as a plain value.
pub open spec fn optional_source(cron: Option<CronExpression>) -> Option<Seq<char>> {
    match cron {
        Some(expr) => Some(expr@),
        None => None,
    }
}

impl<'a> ScheduleForm<'a> {
    /// Makes the schedule of a form from what the parsers found in it.
    pub fn resolve(self, duration: Option<Interval>, cron: Option<CronExpression>) -> (r: Result<
        JobSchedule,
        ScheduleError,
    >)
        ensures
            match r {
                Ok(schedule) => resolved_with(self@, duration, optional_source(cron)) == Some(
                    schedule@,
                ),
                Err(e) => resolved_with(self@, duration, optional_source(cron)) is None && e
                    == ScheduleError::UnsupportedSchedule,
            },
    {
        match self {
            ScheduleForm::Every(_) => match duration {
                Some(iv) => Ok(JobSchedule::Every(iv)),
                None => Err(ScheduleError::UnsupportedSchedule),
            },
            ScheduleForm::Shorthand(iv) => Ok(JobSchedule::Every(iv)),
            _ => match cron {
                Some(expr) => Ok(JobSchedule::Cron(expr)),
                None => Err(ScheduleError::UnsupportedSchedule),
            },
        }
    }
}

impl JobSchedule {
    /// The interval of an `Every` is well formed. (A cron expression is
    /// admissible by its type.)
    pub open spec fn wf(&self) -> bool {
        match *self {
            JobSchedule::Every(iv) => iv.wf(),
            JobSchedule::Cron(_) => true,
        }
    }

    /// Reads a schedule definition.
    pub fn from_str(s: &str) -> (r: Result<JobSchedule, ScheduleError>)
        ensures
            match r {
                Ok(schedule) => parse_schedule(s@) == Some(schedule@) && schedule.wf(),
                Err(e) => parse_schedule(s@) is None && e == ScheduleError::UnsupportedSchedule,
            },
    {
        let form = classify(s);
        let duration = match form {
            ScheduleForm::Every(rest) => Interval::parse(rest),
            _ => None,
        };
        let cron = match form {
            ScheduleForm::Cron(rest) => CronExpression::parse(rest),
            ScheduleForm::Raw(expr) => CronExpression::parse(expr),
            _ => None,
        };
        form.resolve(duration, cron)
    }

    /// Writes the schedule in its prefixed form. Read again, the text gives
    /// this schedule back.
    pub fn to_string(&self) -> (r: String)
        requires
            self.wf(),
        ensures
            r@ == rendered(self@),
            parse_schedule(r@) == Some(self@),
    {
        match self {
            JobSchedule::Every(iv) => {
                let body = iv.render();
                let r = "@every ".to_owned().concat(body.as_str());
                proof {
                    lemma_prefixes_differ();
                    lemma_prefixed_form(every_prefix(), body@);
                }
                r
            },
            JobSchedule::Cron(expr) => {
                let r = "@cron ".to_owned().concat(expr.source());
                proof {
                    use_type_invariant(expr);
                    law_cron_round_trip(expr@);
                }
                r
            },
        }
    }
}

/// The two prefixes begin with `@`, end in a space, and neither begins the
/// other.
pub proof fn lemma_prefixes_differ()
    ensures
        every_prefix().len() == 7,
        cron_prefix().len() == 6,
        every_prefix()[0] == '@',
        cron_prefix()[0] == '@',
        every_prefix()[1] == 'e',
        cron_prefix()[1] == 'c',
{
    reveal_strlit("@every ");
    reveal_strlit("@cron ");
}

/// A prefix that begins with `@`, followed by a text that does not end in
/// whitespace, is trimmed already, begins with the prefix, and has the text
/// as its rest.
pub proof fn lemma_prefixed_form(prefix: Seq<char>, body: Seq<char>)
    requires
        prefix.len() > 0,
        prefix[0] == '@',
        body.len() > 0,
        !is_whitespace(body.last()),
    ensures
        trimmed(prefix + body) == prefix + body,
        has_prefix(prefix + body, prefix),
        (prefix + body).skip(prefix.len() as int) == body,
{
    let s = prefix + body;
    assert(s.first() == '@');
    assert(s.last() == body.last());
    assert(is_trimmed(s));
    lemma_trimmed(s);
    assert(s.take(prefix.len() as int) =~= prefix);
    assert(s.skip(prefix.len() as int) =~= body);
}

/// Reading a definition is total over the grammar. On the trimmed text:
/// behind `@every ` the duration parser decides, and an accepted duration
/// gives an interval; behind `@cron ` the cron parser decides, and an
/// accepted expression gives a cron schedule; the four shorthands give their
/// intervals; any other text is tried whole as a cron expression. Whatever
/// falls through all of these is not a schedule.
pub proof fn law_parse_total(text: Seq<char>)
    ensures
        ({
            let s = trimmed(text);
            let every = has_prefix(s, every_prefix());
            let cron = !every && has_prefix(s, cron_prefix());
            let short = shorthand_interval(s) is Some;
            &&& every ==> parse_schedule(text) == match parsed_interval(s.skip(7)) {
                Some(iv) => Some(ScheduleView::Every(iv)),
                None => None,
            }
            &&& cron ==> parse_schedule(text) == if cron_accepts(cron_form(s.skip(6))) {
                Some(ScheduleView::Cron(s.skip(6)))
            } else {
                None
            }
            &&& short ==> !every && !cron && parse_schedule(text) == Some(
                ScheduleView::Every(shorthand_interval(s)->0),
            )
            &&& !every && !cron && !short ==> parse_schedule(text) == if s.len() > 0
                && cron_accepts(cron_form(s)) {
                Some(ScheduleView::Cron(s))
            } else {
                None
            }
        }),
{
    let s = trimmed(text);
    lemma_trimmed(text);
    lemma_prefixes_differ();
    reveal_strlit("@every ");
    reveal_strlit("@cron ");
    reveal_strlit("@hourly");
    reveal_strlit("@daily");
    reveal_strlit("@weekly");
    reveal_strlit("@monthly");
    if has_prefix(s, every_prefix()) {
        assert(s.take(7)[1] == s[1]);
    }
    if has_prefix(s, cron_prefix()) {
        assert(s.take(6)[1] == s[1]);
        assert(s.take(6)[5] == s[5]);
        let rest = s.skip(6);
        if rest.len() > 0 {
            assert(rest.last() == s.last());
        }
    }
}

/// The text form of a cron schedule, read again, gives the same schedule.
/// (For every schedule, intervals too, the same is stated of
/// `JobSchedule::to_string`, which learns from the formatter what its text
/// reads back as.)
pub proof fn law_cron_round_trip(source: Seq<char>)
    requires
        cron_source_ok(source),
    ensures
        parse_schedule(rendered(ScheduleView::Cron(source))) == Some(ScheduleView::Cron(source)),
{
    let text = cron_prefix() + source;
    lemma_prefixes_differ();
    lemma_prefixed_form(cron_prefix(), source);
    if has_prefix(text, every_prefix()) {
        assert(text.take(every_prefix().len() as int)[1] == text[1]);
    }
}

} // verus!
