//! Discovery of jobs from the labels of containers.

use crate::gate::{OverlapGate, OverlapPolicy};
use crate::job_label::{
    job_label_key, make_job_label_key, parse_job_label, parsed_job_label, JobField,
};
use crate::label::{lookup, selector_view, Label, LabelMap, LabelView};
use crate::schedule::{parse_schedule, JobSchedule, ScheduleView};
use crate::text::{str_eq, text_views, trim, trimmed};
use vstd::prelude::*;
use vstd::string::*;

verus! {

/// The most characters of a container's identifier that stand in for its
/// name.
pub const SHORT_ID_LEN: usize = 12;

/// What the container runtime reports of one container, as far as discovery
/// reads it.
#[derive(Clone, Debug, PartialEq, Eq)]
pub struct Container {
    pub id: String,
    pub names: Vec<String>,
    pub labels: LabelMap,
}

/// A container as a plain value.
pub struct ContainerView {
    pub id: Seq<char>,
    pub names: Seq<Seq<char>>,
    pub labels: Seq<LabelView>,
}

/// A scheduled command, bound to one container.
#[derive(Clone, Debug, PartialEq, Eq)]
pub struct Job {
    pub container_id: String,
    pub container_name: String,
    pub name: String,
    pub schedule: JobSchedule,
    pub command: String,
    pub overlap: OverlapPolicy,
    pub gate: OverlapGate,
}

/// A job as a plain value.
pub struct JobView {
    pub container_id: Seq<char>,
    pub container_name: Seq<char>,
    pub name: Seq<char>,
    pub schedule: ScheduleView,
    pub command: Seq<char>,
    pub overlap: OverlapPolicy,
    pub gate: OverlapGate,
}

/// Why a discovery pass failed.
#[derive(Clone, Debug, PartialEq, Eq)]
pub enum DiscoveryError {
    /// A job with a schedule and a command has a schedule that cannot be
    /// read.
    InvalidSchedule { container: String, job: String, schedule: String },
}

/// A discovery error as a plain value.
pub enum DiscoveryErrorView {
    InvalidSchedule { container: Seq<char>, job: Seq<char>, schedule: Seq<char> },
}

/// The jobs of `v` as plain values.
pub open spec fn job_views(v: Seq<Job>) -> Seq<JobView> {
    v.map_values(|j: Job| j@)
}

/// The containers of `v` as plain values.
pub open spec fn container_views(v: Seq<Container>) -> Seq<ContainerView> {
    v.map_values(|c: Container| c@)
}

impl View for Container {
    type V = ContainerView;

    open spec fn view(&self) -> ContainerView {
        ContainerView { id: self.id@, names: text_views(self.names@), labels: self.labels@ }
    }
}

impl View for Job {
    type V = JobView;

    open spec fn view(&self) -> JobView {
        JobView {
            container_id: self.container_id@,
            container_name: self.container_name@,
            name: self.name@,
            schedule: self.schedule@,
            command: self.command@,
            overlap: self.overlap,
            gate: self.gate,
        }
    }
}

impl View for DiscoveryError {
    type V = DiscoveryErrorView;

    open spec fn view(&self) -> DiscoveryErrorView {
        match *self {
            DiscoveryError::InvalidSchedule { container, job, schedule } => {
                DiscoveryErrorView::InvalidSchedule {
                    container: container@,
                    job: job@,
                    schedule: schedule@,
                }
            },
        }
    }
}

impl Job {
    /// The schedule is well formed.
    pub open spec fn wf(&self) -> bool {
        self.schedule.wf()
    }
}

/// A container is eligible if no selector is set, or one of its labels has
/// the selector's key and value.
pub open spec fn selected(labels: Seq<LabelView>, selector: Option<LabelView>) -> bool {
    match selector {
        Some(wanted) => labels.contains(wanted),
        None => true,
    }
}

/// The key of the label that switches a prefix on.
pub open spec fn enabled_key(prefix: Seq<char>) -> Seq<char> {
    prefix + ".enabled"@
}

/// The prefix is switched on: its `enabled` label is exactly `true`.
pub open spec fn is_enabled(labels: Seq<LabelView>, prefix: Seq<char>) -> bool {
    lookup(labels, enabled_key(prefix)) == Some("true"@)
}

/// The position of the first prefix that is switched on, or the number of
/// prefixes where none is.
pub open spec fn active_index(labels: Seq<LabelView>, prefixes: Seq<Seq<char>>) -> int
    decreases prefixes.len(),
{
    if prefixes.len() == 0 || is_enabled(labels, prefixes.first()) {
        0
    } else {
        1 + active_index(labels, prefixes.drop_first())
    }
}

/// The name under which a container is shown: the first name that the
/// runtime reports, or the beginning of the identifier.
pub open spec fn display_name(id: Seq<char>, names: Seq<Seq<char>>) -> Seq<char> {
    if names.len() > 0 {
        names[0]
    } else if id.len() <= SHORT_ID_LEN {
        id
    } else {
        id.take(SHORT_ID_LEN as int)
    }
}

/// The names of the jobs that labels under `prefix` mention, each once, in
/// the order in which the labels first mention them.
pub open spec fn job_names(labels: Seq<LabelView>, prefix: Seq<char>) -> Seq<Seq<char>>
    decreases labels.len(),
{
    if labels.len() == 0 {
        Seq::empty()
    } else {
        let before = job_names(labels.drop_last(), prefix);
        match parsed_job_label(prefix, labels.last().0) {
            Some((name, _)) => if before.contains(name) {
                before
            } else {
                before.push(name)
            },
            None => before,
        }
    }
}

/// The value of one setting of a job, where a label carries it.
pub open spec fn job_setting(
    labels: Seq<LabelView>,
    prefix: Seq<char>,
    name: Seq<char>,
    field: JobField,
) -> Option<Seq<char>> {
    lookup(labels, job_label_key(prefix, name, field))
}

/// A job has both of the settings that it cannot do without.
pub open spec fn is_complete(labels: Seq<LabelView>, prefix: Seq<char>, name: Seq<char>) -> bool {
    &&& job_setting(labels, prefix, name, JobField::Schedule) is Some
    &&& job_setting(labels, prefix, name, JobField::Command) is Some
}

/// Overlapping runs are skipped only where the trimmed setting is exactly
/// `true`.
pub open spec fn overlap_of(setting: Option<Seq<char>>) -> OverlapPolicy {
    match setting {
        Some(v) => if trimmed(v) == "true"@ {
            OverlapPolicy::Skip
        } else {
            OverlapPolicy::Allow
        },
        None => OverlapPolicy::Allow,
    }
}

/// The job that is made of its settings, once the schedule has been read:
/// `parsed` is the schedule that `schedule` stands for, if it stands for
/// one. A schedule that cannot be read is an error that names the container,
/// the job and the schedule text.
pub open spec fn assembled_job(
    container: ContainerView,
    name: Seq<char>,
    schedule: Seq<char>,
    parsed: Option<ScheduleView>,
    command: Seq<char>,
    no_overlap: Option<Seq<char>>,
) -> Result<JobView, DiscoveryErrorView> {
    let shown = display_name(container.id, container.names);
    match parsed {
        Some(read) => Ok(
            JobView {
                container_id: container.id,
                container_name: shown,
                name,
                schedule: read,
                command,
                overlap: overlap_of(no_overlap),
                gate: OverlapGate { held: false },
            },
        ),
        None => Err(DiscoveryErrorView::InvalidSchedule { container: shown, job: name, schedule }),
    }
}

/// What the job `name` of a container comes to: nothing where its schedule
/// or its command is missing, an error where its schedule cannot be read,
/// else the job.
pub open spec fn job_of(container: ContainerView, prefix: Seq<char>, name: Seq<char>) -> Option<
    Result<JobView, DiscoveryErrorView>,
> {
    let labels = container.labels;
    match (
        job_setting(labels, prefix, name, JobField::Schedule),
        job_setting(labels, prefix, name, JobField::Command),
    ) {
        (Some(schedule), Some(command)) => Some(
            assembled_job(
                container,
                name,
                schedule,
                parse_schedule(schedule),
                command,
                job_setting(labels, prefix, name, JobField::NoOverlap),
            ),
        ),
        _ => None,
    }
}

/// The jobs of the given names, in their order, up to the first error.
pub open spec fn jobs_from(container: ContainerView, prefix: Seq<char>, names: Seq<Seq<char>>)
    -> Result<Seq<JobView>, DiscoveryErrorView>
    decreases names.len(),
{
    if names.len() == 0 {
        Ok(Seq::empty())
    } else {
        match jobs_from(container, prefix, names.drop_last()) {
            Ok(jobs) => match job_of(container, prefix, names.last()) {
                Some(Ok(job)) => Ok(jobs.push(job)),
                Some(Err(e)) => Err(e),
                None => Ok(jobs),
            },
            Err(e) => Err(e),
        }
    }
}

/// The jobs of one container: none unless it is eligible and one of the
/// prefixes is switched on; else the jobs that its labels define under the
/// first such prefix.
pub open spec fn jobs_of_container(
    container: ContainerView,
    selector: Option<LabelView>,
    prefixes: Seq<Seq<char>>,
) -> Result<Seq<JobView>, DiscoveryErrorView> {
    let active = active_index(container.labels, prefixes);
    if selected(container.labels, selector) && active < prefixes.len() {
        jobs_from(container, prefixes[active], job_names(container.labels, prefixes[active]))
    } else {
        Ok(Seq::empty())
    }
}

/// The jobs of all containers, in the containers' order, up to the first
/// error.
pub open spec fn discovered(
    containers: Seq<ContainerView>,
    selector: Option<LabelView>,
    prefixes: Seq<Seq<char>>,
) -> Result<Seq<JobView>, DiscoveryErrorView>
    decreases containers.len(),
{
    if containers.len() == 0 {
        Ok(Seq::empty())
    } else {
        match discovered(containers.drop_last(), selector, prefixes) {
            Ok(jobs) => match jobs_of_container(containers.last(), selector, prefixes) {
                Ok(more) => Ok(jobs + more),
                Err(e) => Err(e),
            },
            Err(e) => Err(e),
        }
    }
}

/// `active_index` is in range, points at a prefix that is switched on unless
/// it is the length, and no prefix before it is switched on.
pub proof fn lemma_active_index(labels: Seq<LabelView>, prefixes: Seq<Seq<char>>)
    ensures
        0 <= active_index(labels, prefixes) <= prefixes.len(),
        active_index(labels, prefixes) < prefixes.len() ==> is_enabled(
            labels,
            prefixes[active_index(labels, prefixes)],
        ),
        forall|k: int|
            0 <= k < active_index(labels, prefixes) ==> !is_enabled(labels, #[trigger] prefixes[k]),
    decreases prefixes.len(),
{
    if prefixes.len() == 0 || is_enabled(labels, prefixes.first()) {
    } else {
        let t = prefixes.drop_first();
        lemma_active_index(labels, t);
        assert forall|k: int| 0 <= k < active_index(labels, prefixes) implies !is_enabled(
            labels,
            #[trigger] prefixes[k],
        ) by {
            if k > 0 {
                assert(prefixes[k] == t[k - 1]);
            }
        }
    }
}

/// An index whose prefix is switched on, with none switched on before it,
/// is the `active_index`.
pub proof fn lemma_active_index_unique(labels: Seq<LabelView>, prefixes: Seq<Seq<char>>, i: int)
    requires
        0 <= i <= prefixes.len(),
        forall|k: int| 0 <= k < i ==> !is_enabled(labels, #[trigger] prefixes[k]),
        i < prefixes.len() ==> is_enabled(labels, prefixes[i]),
    ensures
        active_index(labels, prefixes) == i,
{
    lemma_active_index(labels, prefixes);
    let p = active_index(labels, prefixes);
    if p < i {
        assert(!is_enabled(labels, prefixes[p]));
    }
}

/// An error among the first names is the error of all the names.
pub proof fn lemma_jobs_from_error(
    container: ContainerView,
    prefix: Seq<char>,
    names: Seq<Seq<char>>,
    k: int,
)
    requires
        0 <= k <= names.len(),
        jobs_from(container, prefix, names.take(k)) is Err,
    ensures
        jobs_from(container, prefix, names) == jobs_from(container, prefix, names.take(k)),
    decreases names.len() - k,
{
    if k == names.len() {
        assert(names.take(k) =~= names);
    } else {
        assert(names.drop_last().take(k) =~= names.take(k));
        lemma_jobs_from_error(container, prefix, names.drop_last(), k);
    }
}

/// An error among the first containers is the error of all of them.
pub proof fn lemma_discovered_error(
    containers: Seq<ContainerView>,
    selector: Option<LabelView>,
    prefixes: Seq<Seq<char>>,
    k: int,
)
    requires
        0 <= k <= containers.len(),
        discovered(containers.take(k), selector, prefixes) is Err,
    ensures
        discovered(containers, selector, prefixes) == discovered(
            containers.take(k),
            selector,
            prefixes,
        ),
    decreases containers.len() - k,
{
    if k == containers.len() {
        assert(containers.take(k) =~= containers);
    } else {
        assert(containers.drop_last().take(k) =~= containers.take(k));
        lemma_discovered_error(containers.drop_last(), selector, prefixes, k);
    }
}

/// Tells whether a container is eligible under the selector.
pub fn passes_selector(labels: &LabelMap, selector: &Option<Label>) -> (ok: bool)
    ensures
        ok == selected(labels@, selector_view(*selector)),
{
    match selector {
        None => true,
        Some(wanted) => {
            let mut i: usize = 0;
            while i < labels.entries.len()
                invariant
                    i <= labels.entries@.len(),
                    selector_view(*selector) == Some(wanted@),
                    forall|k: int| 0 <= k < i ==> #[trigger] labels@[k] != wanted@,
                decreases labels.entries.len() - i,
            {
                let label = &labels.entries[i];
                if str_eq(label.key.as_str(), wanted.key.as_str()) && str_eq(
                    label.value.as_str(),
                    wanted.value.as_str(),
                ) {
                    assert(labels@[i as int] == wanted@);
                    assert(labels@.contains(wanted@));
                    return true;
                }
                i += 1;
            }
            false
        },
    }
}

/// Tells whether the prefix is switched on.
pub fn prefix_enabled(labels: &LabelMap, prefix: &str) -> (on: bool)
    ensures
        on == is_enabled(labels@, prefix@),
{
    let key = prefix.to_owned().concat(".enabled");
    match labels.get(key.as_str()) {
        Some(value) => str_eq(value, "true"),
        None => false,
    }
}

/// Finds the first prefix that is switched on.
pub fn active_prefix(labels: &LabelMap, prefixes: &[String]) -> (i: usize)
    ensures
        i == active_index(labels@, text_views(prefixes@)),
        i <= prefixes@.len(),
{
    let mut i: usize = 0;
    while i < prefixes.len() && !prefix_enabled(labels, prefixes[i].as_str())
        invariant
            i <= prefixes@.len(),
            forall|k: int|
                0 <= k < i ==> !is_enabled(labels@, #[trigger] text_views(prefixes@)[k]),
        decreases prefixes.len() - i,
    {
        i += 1;
    }
    proof {
        lemma_active_index_unique(labels@, text_views(prefixes@), i as int);
    }
    i
}

/// The name under which the container is shown.
pub fn shown_name(container: &Container) -> (name: String)
    ensures
        name@ == display_name(container@.id, container@.names),
{
    if container.names.len() > 0 {
        container.names[0].clone()
    } else {
        let id = container.id.as_str();
        let n = id.unicode_len();
        if n <= SHORT_ID_LEN {
            id.to_owned()
        } else {
            assert(id@.subrange(0, SHORT_ID_LEN as int) =~= id@.take(SHORT_ID_LEN as int));
            id.substring_char(0, SHORT_ID_LEN).to_owned()
        }
    }
}

/// Tells whether `names` holds `name`.
pub fn holds_name(names: &Vec<String>, name: &str) -> (found: bool)
    ensures
        found == text_views(names@).contains(name@),
{
    let mut i: usize = 0;
    while i < names.len()
        invariant
            i <= names@.len(),
            forall|k: int| 0 <= k < i ==> #[trigger] text_views(names@)[k] != name@,
        decreases names.len() - i,
    {
        if str_eq(names[i].as_str(), name) {
            assert(text_views(names@)[i as int] == name@);
            return true;
        }
        i += 1;
    }
    false
}

/// Collects the names of the jobs that the labels mention under `prefix`.
pub fn collect_job_names(labels: &LabelMap, prefix: &str) -> (names: Vec<String>)
    ensures
        text_views(names@) == job_names(labels@, prefix@),
{
    let mut names: Vec<String> = Vec::new();
    let mut i: usize = 0;
    assert(labels@.take(0) =~= Seq::empty());
    assert(text_views(names@) =~= Seq::empty());
    while i < labels.entries.len()
        invariant
            i <= labels.entries@.len(),
            text_views(names@) == job_names(labels@.take(i as int), prefix@),
        decreases labels.entries.len() - i,
    {
        let ghost before = names@;
        proof {
            let next = labels@.take(i + 1);
            assert(next.drop_last() =~= labels@.take(i as int));
            assert(next.last().0 == labels.entries@[i as int].key@);
        }
        match parse_job_label(prefix, labels.entries[i].key.as_str()) {
            Some((name, _)) => {
                if !holds_name(&names, name.as_str()) {
                    names.push(name);
                    assert(text_views(names@) =~= text_views(before).push(name@));
                }
            },
            None => {},
        }
        i += 1;
    }
    assert(labels@.take(i as int) =~= labels@);
    names
}

/// The overlap policy that the `no-overlap` setting asks for.
pub fn overlap_policy(setting: Option<&str>) -> (policy: OverlapPolicy)
    ensures
        policy == overlap_of(optional_text(setting)),
{
    match setting {
        Some(v) => if str_eq(trim(v), "true") {
            OverlapPolicy::Skip
        } else {
            OverlapPolicy::Allow
        },
        None => OverlapPolicy::Allow,
    }
}

/// An optional text as a plain value.
pub open spec fn optional_text(text: Option<&str>) -> Option<Seq<char>> {
    match text {
        Some(t) => Some(t@),
        None => None,
    }
}

/// An optional schedule as a plain value.
pub open spec fn optional_schedule(schedule: Option<JobSchedule>) -> Option<ScheduleView> {
    match schedule {
        Some(s) => Some(s@),
        None => None,
    }
}

/// Makes a job of its settings: `parsed` is what reading `schedule` gave.
pub fn assemble_job(
    container: &Container,
    name: &str,
    schedule: &str,
    parsed: Option<JobSchedule>,
    command: &str,
    no_overlap: Option<&str>,
) -> (r: Result<Job, DiscoveryError>)
    ensures
        match r {
            Ok(job) => assembled_job(
                container@,
                name@,
                schedule@,
                optional_schedule(parsed),
                command@,
                optional_text(no_overlap),
            ) == Ok::<JobView, DiscoveryErrorView>(job@),
            Err(e) => assembled_job(
                container@,
                name@,
                schedule@,
                optional_schedule(parsed),
                command@,
                optional_text(no_overlap),
            ) == Err::<JobView, DiscoveryErrorView>(e@),
        },
{
    let container_name = shown_name(container);
    match parsed {
        Some(read) => Ok(
            Job {
                container_id: container.id.clone(),
                container_name,
                name: name.to_owned(),
                schedule: read,
                command: command.to_owned(),
                overlap: overlap_policy(no_overlap),
                gate: OverlapGate::new(),
            },
        ),
        None => Err(
            DiscoveryError::InvalidSchedule {
                container: container_name,
                job: name.to_owned(),
                schedule: schedule.to_owned(),
            },
        ),
    }
}

/// Builds the job `name` of a container from its labels under `prefix`.
pub fn build_job(container: &Container, prefix: &str, name: &str) -> (r: Option<
    Result<Job, DiscoveryError>,
>)
    ensures
        match r {
            Some(Ok(job)) => job_of(container@, prefix@, name@) == Some(
                Ok::<JobView, DiscoveryErrorView>(job@),
            ) && job.wf(),
            Some(Err(e)) => job_of(container@, prefix@, name@) == Some(
                Err::<JobView, DiscoveryErrorView>(e@),
            ),
            None => job_of(container@, prefix@, name@) is None,
        },
{
    let labels = &container.labels;
    let schedule_key = make_job_label_key(prefix, name, JobField::Schedule);
    let command_key = make_job_label_key(prefix, name, JobField::Command);
    let overlap_key = make_job_label_key(prefix, name, JobField::NoOverlap);
    let schedule = match labels.get(schedule_key.as_str()) {
        Some(text) => text,
        None => {
            return None;
        },
    };
    let command = match labels.get(command_key.as_str()) {
        Some(text) => text,
        None => {
            return None;
        },
    };
    let parsed = match JobSchedule::from_str(schedule) {
        Ok(read) => Some(read),
        Err(_) => None,
    };
    Some(
        assemble_job(container, name, schedule, parsed, command, labels.get(overlap_key.as_str())),
    )
}

/// The jobs that one container defines.
pub fn container_jobs(container: &Container, selector: &Option<Label>, prefixes: &[String]) -> (r:
    Result<Vec<Job>, DiscoveryError>)
    ensures
        match r {
            Ok(jobs) => jobs_of_container(
                container@,
                selector_view(*selector),
                text_views(prefixes@),
            ) == Ok::<Seq<JobView>, DiscoveryErrorView>(job_views(jobs@)) && forall|k: int|
                0 <= k < jobs@.len() ==> (#[trigger] jobs@[k]).wf(),
            Err(e) => jobs_of_container(
                container@,
                selector_view(*selector),
                text_views(prefixes@),
            ) == Err::<Seq<JobView>, DiscoveryErrorView>(e@),
        },
{
    let mut jobs: Vec<Job> = Vec::new();
    assert(job_views(jobs@) =~= Seq::empty());
    if !passes_selector(&container.labels, selector) {
        return Ok(jobs);
    }
    let active = active_prefix(&container.labels, prefixes);
    if active >= prefixes.len() {
        return Ok(jobs);
    }
    let prefix = prefixes[active].as_str();
    let names = collect_job_names(&container.labels, prefix);
    let ghost all = text_views(names@);
    let mut i: usize = 0;
    assert(all.take(0) =~= Seq::empty());
    while i < names.len()
        invariant
            i <= names@.len(),
            all == text_views(names@),
            jobs_of_container(container@, selector_view(*selector), text_views(prefixes@))
                == jobs_from(container@, prefix@, all),
            jobs_from(container@, prefix@, all.take(i as int)) == Ok::<
                Seq<JobView>,
                DiscoveryErrorView,
            >(job_views(jobs@)),
            forall|k: int| 0 <= k < jobs@.len() ==> (#[trigger] jobs@[k]).wf(),
        decreases names.len() - i,
    {
        let ghost before = jobs@;
        proof {
            let next = all.take(i + 1);
            assert(next.drop_last() =~= all.take(i as int));
            assert(next.last() == names@[i as int]@);
        }
        match build_job(container, prefix, names[i].as_str()) {
            Some(Ok(job)) => {
                jobs.push(job);
                assert(job_views(jobs@) =~= job_views(before).push(job@));
            },
            Some(Err(e)) => {
                proof {
                    lemma_jobs_from_error(container@, prefix@, all, i + 1);
                }
                return Err(e);
            },
            None => {},
        }
        i += 1;
    }
    assert(all.take(i as int) =~= all);
    Ok(jobs)
}

/// Derives the jobs from the containers that the runtime lists. Containers
/// contribute in their order; the first schedule that cannot be read ends
/// the pass with its error.
pub fn discover(containers: &[Container], selector: Option<Label>, prefixes: &[String]) -> (r:
    Result<Vec<Job>, DiscoveryError>)
    ensures
        match r {
            Ok(jobs) => discovered(
                container_views(containers@),
                selector_view(selector),
                text_views(prefixes@),
            ) == Ok::<Seq<JobView>, DiscoveryErrorView>(job_views(jobs@)) && forall|k: int|
                0 <= k < jobs@.len() ==> (#[trigger] jobs@[k]).wf(),
            Err(e) => discovered(
                container_views(containers@),
                selector_view(selector),
                text_views(prefixes@),
            ) == Err::<Seq<JobView>, DiscoveryErrorView>(e@),
        },
{
    let mut jobs: Vec<Job> = Vec::new();
    let ghost all = container_views(containers@);
    let mut i: usize = 0;
    assert(all.take(0) =~= Seq::empty());
    assert(job_views(jobs@) =~= Seq::empty());
    while i < containers.len()
        invariant
            i <= containers@.len(),
            all == container_views(containers@),
            discovered(all.take(i as int), selector_view(selector), text_views(prefixes@)) == Ok::<
                Seq<JobView>,
                DiscoveryErrorView,
            >(job_views(jobs@)),
            forall|k: int| 0 <= k < jobs@.len() ==> (#[trigger] jobs@[k]).wf(),
        decreases containers.len() - i,
    {
        let ghost before = jobs@;
        proof {
            let next = all.take(i + 1);
            assert(next.drop_last() =~= all.take(i as int));
            assert(next.last() == containers@[i as int]@);
        }
        match container_jobs(&containers[i], &selector, prefixes) {
            Ok(mut more) => {
                let ghost added = more@;
                jobs.append(&mut more);
                assert(job_views(jobs@) =~= job_views(before) + job_views(added));
            },
            Err(e) => {
                proof {
                    lemma_discovered_error(
                        all,
                        selector_view(selector),
                        text_views(prefixes@),
                        i + 1,
                    );
                }
                return Err(e);
            },
        }
        i += 1;
    }
    assert(all.take(i as int) =~= all);
    Ok(jobs)
}

} // verus!
