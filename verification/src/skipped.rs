//! The jobs that a discovery pass leaves out because a setting is missing,
//! for the caller to warn of.

use crate::discovery::{
    active_index, active_prefix, collect_job_names, container_views, display_name, is_complete,
    job_names, job_of, job_setting, passes_selector, selected, shown_name, Container,
    ContainerView,
};
use crate::job_label::{make_job_label_key, JobField};
use crate::label::{selector_view, Label, LabelView};
use crate::text::text_views;
use vstd::prelude::*;
use vstd::string::*;

verus! {

/// A job that was left out, and the first setting that it lacks: its
/// schedule, or else its command.
#[derive(Clone, Debug, PartialEq, Eq)]
pub struct SkippedJob {
    pub container: String,
    pub job: String,
    pub missing: JobField,
}

/// A skipped job as a plain value.
pub struct SkippedJobView {
    pub container: Seq<char>,
    pub job: Seq<char>,
    pub missing: JobField,
}

impl View for SkippedJob {
    type V = SkippedJobView;

    open spec fn view(&self) -> SkippedJobView {
        SkippedJobView { container: self.container@, job: self.job@, missing: self.missing }
    }
}

/// The skipped jobs of `v` as plain values.
pub open spec fn skipped_views(v: Seq<SkippedJob>) -> Seq<SkippedJobView> {
    v.map_values(|s: SkippedJob| s@)
}

/// The setting for want of which a job is left out: the schedule where
/// there is none, else the command where there is none.
pub open spec fn missing_setting(labels: Seq<LabelView>, prefix: Seq<char>, name: Seq<char>)
    -> Option<JobField> {
    if job_setting(labels, prefix, name, JobField::Schedule) is None {
        Some(JobField::Schedule)
    } else if job_setting(labels, prefix, name, JobField::Command) is None {
        Some(JobField::Command)
    } else {
        None
    }
}

/// Those of the given names whose jobs are left out, in their order.
pub open spec fn skipped_from(container: ContainerView, prefix: Seq<char>, names: Seq<Seq<char>>)
    -> Seq<SkippedJobView>
    decreases names.len(),
{
    if names.len() == 0 {
        Seq::empty()
    } else {
        let before = skipped_from(container, prefix, names.drop_last());
        match missing_setting(container.labels, prefix, names.last()) {
            Some(missing) => before.push(
                SkippedJobView {
                    container: display_name(container.id, container.names),
                    job: names.last(),
                    missing,
                },
            ),
            None => before,
        }
    }
}

/// The jobs of one container that are left out: none unless the container
/// is eligible and one of the prefixes is switched on.
pub open spec fn skipped_of_container(
    container: ContainerView,
    selector: Option<LabelView>,
    prefixes: Seq<Seq<char>>,
) -> Seq<SkippedJobView> {
    let active = active_index(container.labels, prefixes);
    if selected(container.labels, selector) && active < prefixes.len() {
        skipped_from(container, prefixes[active], job_names(container.labels, prefixes[active]))
    } else {
        Seq::empty()
    }
}

/// The jobs of all containers that are left out, in the containers' order.
pub open spec fn skipped(
    containers: Seq<ContainerView>,
    selector: Option<LabelView>,
    prefixes: Seq<Seq<char>>,
) -> Seq<SkippedJobView>
    decreases containers.len(),
{
    if containers.len() == 0 {
        Seq::empty()
    } else {
        skipped(containers.drop_last(), selector, prefixes) + skipped_of_container(
            containers.last(),
            selector,
            prefixes,
        )
    }
}

/// Tells which setting the job `name` lacks, if it lacks one.
pub fn find_missing(container: &Container, prefix: &str, name: &str) -> (r: Option<JobField>)
    ensures
        r == missing_setting(container@.labels, prefix@, name@),
{
    let schedule_key = make_job_label_key(prefix, name, JobField::Schedule);
    let command_key = make_job_label_key(prefix, name, JobField::Command);
    if container.labels.get(schedule_key.as_str()).is_none() {
        Some(JobField::Schedule)
    } else if container.labels.get(command_key.as_str()).is_none() {
        Some(JobField::Command)
    } else {
        None
    }
}

/// The jobs of one container that discovery leaves out.
pub fn container_skipped(container: &Container, selector: &Option<Label>, prefixes: &[String])
    -> (r: Vec<SkippedJob>)
    ensures
        skipped_views(r@) == skipped_of_container(
            container@,
            selector_view(*selector),
            text_views(prefixes@),
        ),
{
    let mut out: Vec<SkippedJob> = Vec::new();
    assert(skipped_views(out@) =~= Seq::empty());
    if !passes_selector(&container.labels, selector) {
        return out;
    }
    let active = active_prefix(&container.labels, prefixes);
    if active >= prefixes.len() {
        return out;
    }
    let prefix = prefixes[active].as_str();
    let names = collect_job_names(&container.labels, prefix);
    let ghost all = text_views(names@);
    let mut i: usize = 0;
    assert(all.take(0) =~= Seq::empty());
    while i < names.len()
        invariant
            i <= names@.len(),
            all == text_views(names@),
            skipped_views(out@) == skipped_from(container@, prefix@, all.take(i as int)),
        decreases names.len() - i,
    {
        let ghost before = out@;
        proof {
            let next = all.take(i + 1);
            assert(next.drop_last() =~= all.take(i as int));
            assert(next.last() == names@[i as int]@);
        }
        let name = names[i].as_str();
        match find_missing(container, prefix, name) {
            Some(missing) => {
                let entry = SkippedJob {
                    container: shown_name(container),
                    job: name.to_owned(),
                    missing,
                };
                out.push(entry);
                assert(skipped_views(out@) =~= skipped_views(before).push(entry@));
            },
            None => {},
        }
        i += 1;
    }
    assert(all.take(i as int) =~= all);
    out
}

/// The jobs that a discovery pass over the containers leaves out because
/// their schedule or their command is missing.
pub fn skipped_jobs(containers: &[Container], selector: &Option<Label>, prefixes: &[String]) -> (r:
    Vec<SkippedJob>)
    ensures
        skipped_views(r@) == skipped(
            container_views(containers@),
            selector_view(*selector),
            text_views(prefixes@),
        ),
{
    let mut out: Vec<SkippedJob> = Vec::new();
    let ghost all = container_views(containers@);
    let mut i: usize = 0;
    assert(all.take(0) =~= Seq::empty());
    assert(skipped_views(out@) =~= Seq::empty());
    while i < containers.len()
        invariant
            i <= containers@.len(),
            all == container_views(containers@),
            skipped_views(out@) == skipped(
                all.take(i as int),
                selector_view(*selector),
                text_views(prefixes@),
            ),
        decreases containers.len() - i,
    {
        let ghost before = out@;
        proof {
            let next = all.take(i + 1);
            assert(next.drop_last() =~= all.take(i as int));
            assert(next.last() == containers@[i as int]@);
        }
        let mut more = container_skipped(&containers[i], selector, prefixes);
        let ghost added = more@;
        out.append(&mut more);
        assert(skipped_views(out@) =~= skipped_views(before) + skipped_views(added));
        i += 1;
    }
    assert(all.take(i as int) =~= all);
    out
}

/// A job is left out exactly if it is not complete, and then it comes to no
/// job and to no error; every name that the labels mention is either left
/// out or comes to a job or an error, never both.
pub proof fn law_skipped_or_built(container: ContainerView, prefix: Seq<char>, name: Seq<char>)
    ensures
        missing_setting(container.labels, prefix, name) is Some <==> !is_complete(
            container.labels,
            prefix,
            name,
        ),
        missing_setting(container.labels, prefix, name) is Some <==> job_of(
            container,
            prefix,
            name,
        ) is None,
{
}

/// The skipped jobs of the given names are exactly those of the names that
/// lack a setting, each with the container's shown name.
pub proof fn law_skipped_names(
    container: ContainerView,
    prefix: Seq<char>,
    names: Seq<Seq<char>>,
    entry: SkippedJobView,
)
    ensures
        skipped_from(container, prefix, names).contains(entry) <==> names.contains(entry.job)
            && missing_setting(container.labels, prefix, entry.job) == Some(entry.missing)
            && entry.container == display_name(container.id, container.names),
    decreases names.len(),
{
    if names.len() > 0 {
        let init = names.drop_last();
        let before = skipped_from(container, prefix, init);
        let all = skipped_from(container, prefix, names);
        law_skipped_names(container, prefix, init, entry);
        if all.contains(entry) {
            let w = choose|w: int| 0 <= w < all.len() && all[w] == entry;
            if w < before.len() {
                assert(before[w] == entry);
                assert(before.contains(entry));
                let k = choose|k: int| 0 <= k < init.len() && init[k] == entry.job;
                assert(names[k] == entry.job);
            } else {
                assert(names[names.len() - 1] == entry.job);
            }
        }
        if names.contains(entry.job) && missing_setting(container.labels, prefix, entry.job)
            == Some(entry.missing) && entry.container == display_name(
            container.id,
            container.names,
        ) {
            let k = choose|k: int| 0 <= k < names.len() && names[k] == entry.job;
            if k < init.len() {
                assert(init[k] == entry.job);
                let w = choose|w: int| 0 <= w < before.len() && before[w] == entry;
                assert(all[w] == entry);
            } else {
                assert(all[all.len() - 1] == entry);
            }
        }
    }
}

} // verus!
