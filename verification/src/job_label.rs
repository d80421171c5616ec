//! The keys of the labels that define jobs:
//! `<prefix>.job-exec.<job-name>.<setting>`.

use crate::text::{
    chars_of, find_char, has_prefix, lemma_position, lemma_position_unique, position, str_eq,
    strip_prefix,
};
use vstd::prelude::*;
use vstd::string::*;

verus! {

/// The settings of a job that labels carry.
#[derive(Clone, Copy, Debug, PartialEq, Eq, Structural)]
pub enum JobField {
    Schedule,
    Command,
    NoOverlap,
}

/// What stands between the prefix and the job's name.
pub open spec fn job_marker() -> Seq<char> {
    ".job-exec."@
}

/// What stands behind the job's name, for each setting.
pub open spec fn field_suffix(field: JobField) -> Seq<char> {
    match field {
        JobField::Schedule => ".schedule"@,
        JobField::Command => ".command"@,
        JobField::NoOverlap => ".no-overlap"@,
    }
}

/// The setting that a suffix names, if it names one.
pub open spec fn field_of_suffix(suffix: Seq<char>) -> Option<JobField> {
    if suffix == ".schedule"@ {
        Some(JobField::Schedule)
    } else if suffix == ".command"@ {
        Some(JobField::Command)
    } else if suffix == ".no-overlap"@ {
        Some(JobField::NoOverlap)
    } else {
        None
    }
}

/// A job's name is any run of at least one character without a `.`.
pub open spec fn is_job_name(name: Seq<char>) -> bool {
    name.len() > 0 && forall|k: int| 0 <= k < name.len() ==> #[trigger] name[k] != '.'
}

/// The key of the label that carries one setting of one job.
pub open spec fn job_label_key(prefix: Seq<char>, name: Seq<char>, field: JobField) -> Seq<char> {
    prefix + job_marker() + name + field_suffix(field)
}

/// The job and the setting that a label key names under `prefix`, if it
/// names any.
pub open spec fn parsed_job_label(prefix: Seq<char>, key: Seq<char>) -> Option<
    (Seq<char>, JobField),
> {
    let head = prefix + job_marker();
    if has_prefix(key, head) {
        let rest = key.skip(head.len() as int);
        let i = position(rest, '.');
        if i > 0 {
            match field_of_suffix(rest.skip(i)) {
                Some(field) => Some((rest.take(i), field)),
                None => None,
            }
        } else {
            None
        }
    } else {
        None
    }
}

/// The three suffixes begin with a `.`, hold no other, and differ.
pub proof fn lemma_suffixes(field: JobField)
    ensures
        field_suffix(field).len() > 1,
        field_suffix(field)[0] == '.',
        field_of_suffix(field_suffix(field)) == Some(field),
{
    reveal_strlit(".schedule");
    reveal_strlit(".command");
    reveal_strlit(".no-overlap");
    assert(".schedule"@[1] != ".command"@[1]);
    assert(".schedule"@[1] != ".no-overlap"@[1]);
    assert(".command"@[1] != ".no-overlap"@[1]);
}

/// The grammar of job labels, in both directions: a key names the job `name`
/// and the setting `field` under `prefix` exactly if `name` is a job name
/// and the key is the prefix, `.job-exec.`, the name, a `.` and the
/// setting's word.
pub proof fn law_job_label_grammar(
    prefix: Seq<char>,
    key: Seq<char>,
    name: Seq<char>,
    field: JobField,
)
    ensures
        parsed_job_label(prefix, key) == Some((name, field)) <==> is_job_name(name) && key
            == job_label_key(prefix, name, field),
{
    let head = prefix + job_marker();
    lemma_suffixes(field);
    if parsed_job_label(prefix, key) == Some((name, field)) {
        let rest = key.skip(head.len() as int);
        let i = position(rest, '.');
        lemma_position(rest, '.');
        let suffix = rest.skip(i);
        assert(suffix == field_suffix(field)) by {
            lemma_suffixes(JobField::Schedule);
            lemma_suffixes(JobField::Command);
            lemma_suffixes(JobField::NoOverlap);
        }
        assert(key =~= key.take(head.len() as int) + rest);
        assert(rest =~= rest.take(i) + suffix);
        assert(key =~= job_label_key(prefix, name, field));
        assert forall|k: int| 0 <= k < name.len() implies #[trigger] name[k] != '.' by {
            assert(name[k] == rest[k]);
        }
    }
    if is_job_name(name) && key == job_label_key(prefix, name, field) {
        let suffix = field_suffix(field);
        let rest = name + suffix;
        assert(key =~= head + rest);
        assert(key.take(head.len() as int) =~= head);
        assert(key.skip(head.len() as int) =~= rest);
        assert forall|k: int| 0 <= k < name.len() implies #[trigger] rest[k] != '.' by {
            assert(rest[k] == name[k]);
        }
        assert(rest[name.len() as int] == suffix[0]);
        lemma_position_unique(rest, '.', name.len() as int);
        assert(rest.take(name.len() as int) =~= name);
        assert(rest.skip(name.len() as int) =~= suffix);
    }
}

/// The setting that a suffix names.
pub fn field_from_suffix(suffix: &str) -> (r: Option<JobField>)
    ensures
        r == field_of_suffix(suffix@),
{
    if str_eq(suffix, ".schedule") {
        Some(JobField::Schedule)
    } else if str_eq(suffix, ".command") {
        Some(JobField::Command)
    } else if str_eq(suffix, ".no-overlap") {
        Some(JobField::NoOverlap)
    } else {
        None
    }
}

/// Reads a label key as the setting of a job under `prefix`.
pub fn parse_job_label(prefix: &str, key: &str) -> (r: Option<(String, JobField)>)
    ensures
        match r {
            Some((name, field)) => parsed_job_label(prefix@, key@) == Some((name@, field)),
            None => parsed_job_label(prefix@, key@) is None,
        },
{
    let head = prefix.to_owned().concat(".job-exec.");
    let rest = match strip_prefix(key, head.as_str()) {
        Some(rest) => rest,
        None => {
            return None;
        },
    };
    let chars = chars_of(rest);
    let n = chars.len();
    let i = find_char(&chars, '.');
    if i == 0 {
        return None;
    }
    proof {
        lemma_position(rest@, '.');
        assert(rest@.subrange(0, i as int) =~= rest@.take(i as int));
        assert(rest@.subrange(i as int, n as int) =~= rest@.skip(i as int));
    }
    match field_from_suffix(rest.substring_char(i, n)) {
        Some(field) => Some((rest.substring_char(0, i).to_owned(), field)),
        None => None,
    }
}

/// Writes the key of the label that carries `field` for the job `name`.
pub fn make_job_label_key(prefix: &str, name: &str, field: JobField) -> (key: String)
    ensures
        key@ == job_label_key(prefix@, name@, field),
{
    let suffix = match field {
        JobField::Schedule => ".schedule",
        JobField::Command => ".command",
        JobField::NoOverlap => ".no-overlap",
    };
    prefix.to_owned().concat(".job-exec.").concat(name).concat(suffix)
}

} // verus!
