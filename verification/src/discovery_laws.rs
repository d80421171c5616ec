//! What holds of every discovery pass.

use crate::discovery::{
    active_index, discovered, is_complete, is_enabled, job_names, job_of, job_setting, jobs_from,
    jobs_of_container, lemma_active_index, lemma_active_index_unique, selected, ContainerView,
    DiscoveryErrorView, JobView,
};
use crate::job_label::{parsed_job_label, JobField};
use crate::label::LabelView;
use crate::schedule::parse_schedule;
use vstd::prelude::*;

verus! {

/// The label at position `k` defines a setting of the job `name` under
/// `prefix`.
pub open spec fn defines_job(labels: Seq<LabelView>, prefix: Seq<char>, k: int, name: Seq<char>)
    -> bool {
    &&& 0 <= k < labels.len()
    &&& parsed_job_label(prefix, labels[k].0) matches Some(found)
    &&& found.0 == name
}

/// No two texts of `names` are equal.
pub open spec fn distinct_names(names: Seq<Seq<char>>) -> bool {
    forall|i: int, j: int| 0 <= i < j < names.len() ==> #[trigger] names[i] != #[trigger] names[j]
}

/// `jobs` holds a job of the given name.
pub open spec fn has_job(jobs: Seq<JobView>, name: Seq<char>) -> bool {
    exists|j: int| 0 <= j < jobs.len() && (#[trigger] jobs[j]).name == name
}

/// No two jobs of `jobs` have the same container and the same name.
pub open spec fn distinct_jobs(jobs: Seq<JobView>) -> bool {
    forall|i: int, j: int|
        0 <= i < j < jobs.len() ==> !((#[trigger] jobs[i]).container_id == (
        #[trigger] jobs[j]).container_id && jobs[i].name == jobs[j].name)
}

/// No two containers of the listing have the same identifier.
pub open spec fn distinct_ids(containers: Seq<ContainerView>) -> bool {
    forall|a: int, b: int|
        0 <= a < b < containers.len() ==> (#[trigger] containers[a]).id != (
        #[trigger] containers[b]).id
}

/// The job names of a label map are exactly the names that some label
/// defines a setting of, and none is listed twice.
pub proof fn law_job_names(labels: Seq<LabelView>, prefix: Seq<char>)
    ensures
        distinct_names(job_names(labels, prefix)),
        forall|name: Seq<char>| #[trigger]
            job_names(labels, prefix).contains(name) <==> exists|k: int| #[trigger]
                defines_job(labels, prefix, k, name),
    decreases labels.len(),
{
    let names = job_names(labels, prefix);
    if labels.len() == 0 {
    } else {
        let init = labels.drop_last();
        let before = job_names(init, prefix);
        law_job_names(init, prefix);
        let last = labels.len() - 1;
        let found = parsed_job_label(prefix, labels.last().0);
        assert forall|name: Seq<char>| #[trigger]
            names.contains(name) <==> exists|k: int| #[trigger]
                defines_job(labels, prefix, k, name) by {
            if names.contains(name) {
                if before.contains(name) {
                    let k = choose|k: int| #[trigger] defines_job(init, prefix, k, name);
                    assert(init[k] == labels[k]);
                    assert(defines_job(labels, prefix, k, name));
                } else {
                    let w = choose|w: int| 0 <= w < names.len() && names[w] == name;
                    assert(w == before.len());
                    assert(defines_job(labels, prefix, last, name));
                }
            }
            if exists|k: int| #[trigger] defines_job(labels, prefix, k, name) {
                let k = choose|k: int| #[trigger] defines_job(labels, prefix, k, name);
                if k < last {
                    assert(init[k] == labels[k]);
                    assert(defines_job(init, prefix, k, name));
                    assert(before.contains(name));
                    let w = choose|w: int| 0 <= w < before.len() && before[w] == name;
                    assert(names[w] == name);
                } else {
                    if !before.contains(name) {
                        assert(names[before.len() as int] == name);
                    } else {
                        let w = choose|w: int| 0 <= w < before.len() && before[w] == name;
                        assert(names[w] == name);
                    }
                }
            }
        }
        assert forall|i: int, j: int| 0 <= i < j < names.len() implies #[trigger] names[i]
            != #[trigger] names[j] by {
            if j < before.len() {
                assert(before[i] != before[j]);
            } else {
                assert(before[i] == names[i]);
                assert(!before.contains(names[j]));
            }
        }
    }
}

/// What `jobs_from` returns, name by name: every job it returns is the job of
/// one of the names; every name whose job is complete has its job returned;
/// distinct names give jobs of distinct names; and the pass fails exactly if
/// the job of some name fails, with the error of one of them.
pub proof fn lemma_jobs_from(container: ContainerView, prefix: Seq<char>, names: Seq<Seq<char>>)
    ensures
        match jobs_from(container, prefix, names) {
            Ok(jobs) => {
                &&& forall|j: int|
                    0 <= j < jobs.len() ==> names.contains((#[trigger] jobs[j]).name) && job_of(
                        container,
                        prefix,
                        jobs[j].name,
                    ) == Some(Ok::<JobView, DiscoveryErrorView>(jobs[j]))
                &&& forall|k: int|
                    0 <= k < names.len() && job_of(container, prefix, #[trigger] names[k])
                        is Some ==> has_job(jobs, names[k])
                &&& forall|k: int|
                    0 <= k < names.len() ==> !(job_of(container, prefix, #[trigger] names[k])
                        matches Some(Err(_)))
                &&& distinct_names(names) ==> forall|i: int, j: int|
                    0 <= i < j < jobs.len() ==> (#[trigger] jobs[i]).name != (
                    #[trigger] jobs[j]).name
            },
            Err(e) => exists|k: int|
                0 <= k < names.len() && job_of(container, prefix, #[trigger] names[k]) == Some(
                    Err::<JobView, DiscoveryErrorView>(e),
                ),
        },
    decreases names.len(),
{
    if names.len() == 0 {
    } else {
        let init = names.drop_last();
        let last = names.len() - 1;
        lemma_jobs_from(container, prefix, init);
        match jobs_from(container, prefix, init) {
            Ok(before) => {
                match jobs_from(container, prefix, names) {
                    Ok(jobs) => {
                        assert forall|j: int| 0 <= j < jobs.len() implies names.contains(
                            (#[trigger] jobs[j]).name,
                        ) && job_of(container, prefix, jobs[j].name) == Some(
                            Ok::<JobView, DiscoveryErrorView>(jobs[j]),
                        ) by {
                            if j < before.len() {
                                assert(jobs[j] == before[j]);
                                let w = choose|w: int|
                                    0 <= w < init.len() && init[w] == before[j].name;
                                assert(names[w] == before[j].name);
                            } else {
                                assert(names[last] == jobs[j].name);
                            }
                        }
                        assert forall|k: int|
                            0 <= k < names.len() && job_of(container, prefix, #[trigger] names[k])
                                is Some implies has_job(jobs, names[k]) by {
                            if k < last {
                                assert(init[k] == names[k]);
                                let j = choose|j: int|
                                    0 <= j < before.len() && (#[trigger] before[j]).name
                                        == names[k];
                                assert(jobs[j].name == names[k]);
                            } else {
                                assert(jobs[jobs.len() - 1].name == names[k]);
                            }
                        }
                        assert forall|k: int| 0 <= k < names.len() implies !(job_of(
                            container,
                            prefix,
                            #[trigger] names[k],
                        ) matches Some(Err(_))) by {
                            if k < last {
                                assert(init[k] == names[k]);
                            }
                        }
                        if distinct_names(names) {
                            assert(distinct_names(init)) by {
                                assert forall|i: int, j: int|
                                    0 <= i < j < init.len() implies #[trigger] init[i]
                                    != #[trigger] init[j] by {
                                    assert(names[i] != names[j]);
                                }
                            }
                            assert forall|i: int, j: int| 0 <= i < j < jobs.len() implies (
                            #[trigger] jobs[i]).name != (#[trigger] jobs[j]).name by {
                                if j < before.len() {
                                    assert(before[i].name != before[j].name);
                                } else {
                                    assert(jobs[i] == before[i]);
                                    let w = choose|w: int|
                                        0 <= w < init.len() && init[w] == before[i].name;
                                    assert(names[w] != names[last]);
                                }
                            }
                        }
                    },
                    Err(e) => {
                        assert(job_of(container, prefix, names[last]) == Some(
                            Err::<JobView, DiscoveryErrorView>(e),
                        ));
                    },
                }
            },
            Err(e) => {
                let k = choose|k: int|
                    0 <= k < init.len() && job_of(container, prefix, #[trigger] init[k]) == Some(
                        Err::<JobView, DiscoveryErrorView>(e),
                    );
                assert(names[k] == init[k]);
            },
        }
    }
}

/// A job whose schedule cannot be read fails the pass over any names that
/// hold its name.
pub proof fn lemma_jobs_from_fails(
    container: ContainerView,
    prefix: Seq<char>,
    names: Seq<Seq<char>>,
    k: int,
)
    requires
        0 <= k < names.len(),
        job_of(container, prefix, names[k]) matches Some(Err(_)),
    ensures
        jobs_from(container, prefix, names) is Err,
    decreases names.len(),
{
    if k < names.len() - 1 {
        assert(names.drop_last()[k] == names[k]);
        lemma_jobs_from_fails(container, prefix, names.drop_last(), k);
    }
}

/// A container on which none of the prefixes is switched on contributes no
/// job.
pub proof fn law_disabled_container_has_no_jobs(
    container: ContainerView,
    selector: Option<LabelView>,
    prefixes: Seq<Seq<char>>,
)
    requires
        forall|k: int|
            0 <= k < prefixes.len() ==> !is_enabled(container.labels, #[trigger] prefixes[k]),
    ensures
        jobs_of_container(container, selector, prefixes) == Ok::<
            Seq<JobView>,
            DiscoveryErrorView,
        >(Seq::empty()),
{
    lemma_active_index(container.labels, prefixes);
}

/// The first prefix that is switched on is the only one that counts: the
/// jobs of a container are those that it defines under that prefix alone,
/// whatever its labels say under the prefixes that follow.
pub proof fn law_first_prefix_wins(
    container: ContainerView,
    selector: Option<LabelView>,
    prefixes: Seq<Seq<char>>,
)
    requires
        active_index(container.labels, prefixes) < prefixes.len(),
    ensures
        jobs_of_container(container, selector, prefixes) == jobs_of_container(
            container,
            selector,
            seq![prefixes[active_index(container.labels, prefixes)]],
        ),
{
    lemma_active_index(container.labels, prefixes);
    let only = seq![prefixes[active_index(container.labels, prefixes)]];
    lemma_active_index_unique(container.labels, only, 0);
}

/// A job that lacks its schedule or its command is left out, and does not
/// fail the pass. On an eligible container on which a prefix is switched on:
/// the pass fails exactly if some job that has both settings has a schedule
/// that cannot be read; and where it succeeds, the jobs returned are exactly
/// the mentioned jobs that have both settings.
pub proof fn law_incomplete_jobs_are_skipped(
    container: ContainerView,
    selector: Option<LabelView>,
    prefixes: Seq<Seq<char>>,
)
    ensures
        ({
            let labels = container.labels;
            let active = active_index(labels, prefixes);
            let prefix = prefixes[active];
            let names = job_names(labels, prefix);
            selected(labels, selector) && active < prefixes.len() ==> {
                &&& jobs_of_container(container, selector, prefixes) matches Ok(jobs)
                    ==> forall|name: Seq<char>| #[trigger]
                    has_job(jobs, name) <==> names.contains(name) && is_complete(
                        labels,
                        prefix,
                        name,
                    )
                &&& jobs_of_container(container, selector, prefixes) is Err <==> exists|
                    name: Seq<char>,
                |
                    #![trigger names.contains(name)]
                    names.contains(name) && is_complete(labels, prefix, name) && parse_schedule(
                        job_setting(labels, prefix, name, JobField::Schedule)->0,
                    ) is None
            }
        }),
{
    let labels = container.labels;
    lemma_active_index(labels, prefixes);
    if selected(labels, selector) && active_index(labels, prefixes) < prefixes.len() {
        lemma_incomplete_jobs(container, prefixes[active_index(labels, prefixes)]);
    }
}

/// The same for the jobs that the labels of a container define under
/// `prefix`.
proof fn lemma_incomplete_jobs(container: ContainerView, prefix: Seq<char>)
    ensures
        ({
            let labels = container.labels;
            let names = job_names(labels, prefix);
            &&& jobs_from(container, prefix, names) matches Ok(jobs) ==> forall|name: Seq<char>|
             #[trigger]
                has_job(jobs, name) <==> names.contains(name) && is_complete(labels, prefix, name)
            &&& jobs_from(container, prefix, names) is Err <==> exists|name: Seq<char>|
                #![trigger names.contains(name)]
                names.contains(name) && is_complete(labels, prefix, name) && parse_schedule(
                    job_setting(labels, prefix, name, JobField::Schedule)->0,
                ) is None
        }),
{
    let labels = container.labels;
    let names = job_names(labels, prefix);
    lemma_jobs_from(container, prefix, names);
    match jobs_from(container, prefix, names) {
        Ok(jobs) => {
            assert forall|name: Seq<char>| #[trigger]
                has_job(jobs, name) <==> names.contains(name) && is_complete(
                    labels,
                    prefix,
                    name,
                ) by {
                if has_job(jobs, name) {
                    let j = choose|j: int| 0 <= j < jobs.len() && (#[trigger] jobs[j]).name == name;
                    assert(names.contains(jobs[j].name));
                }
                if names.contains(name) && is_complete(labels, prefix, name) {
                    let k = choose|k: int| 0 <= k < names.len() && names[k] == name;
                    assert(job_of(container, prefix, names[k]) is Some);
                }
            }
            assert forall|name: Seq<char>|
                names.contains(name) && is_complete(labels, prefix, name) implies parse_schedule(
                job_setting(labels, prefix, name, JobField::Schedule)->0,
            ) is Some by {
                let k = choose|k: int| 0 <= k < names.len() && names[k] == name;
                assert(!(job_of(container, prefix, names[k]) matches Some(Err(_))));
            }
        },
        Err(e) => {
            let k = choose|k: int|
                0 <= k < names.len() && job_of(container, prefix, #[trigger] names[k]) == Some(
                    Err::<JobView, DiscoveryErrorView>(e),
                );
            assert(names.contains(names[k]));
        },
    }
    assert forall|name: Seq<char>|
        names.contains(name) && is_complete(labels, prefix, name) && parse_schedule(
            job_setting(labels, prefix, name, JobField::Schedule)->0,
        ) is None implies jobs_from(container, prefix, names) is Err by {
        let k = choose|k: int| 0 <= k < names.len() && names[k] == name;
        lemma_jobs_from_fails(container, prefix, names, k);
    }
}

/// The jobs of one container carry its identifier, and no two of them have
/// the same name.
pub proof fn law_container_jobs_unique(
    container: ContainerView,
    selector: Option<LabelView>,
    prefixes: Seq<Seq<char>>,
)
    ensures
        match jobs_of_container(container, selector, prefixes) {
            Ok(jobs) => {
                &&& forall|j: int|
                    0 <= j < jobs.len() ==> (#[trigger] jobs[j]).container_id == container.id
                &&& forall|i: int, j: int|
                    0 <= i < j < jobs.len() ==> (#[trigger] jobs[i]).name != (
                    #[trigger] jobs[j]).name
            },
            Err(_) => true,
        },
{
    let labels = container.labels;
    lemma_active_index(labels, prefixes);
    let active = active_index(labels, prefixes);
    if selected(labels, selector) && active < prefixes.len() {
        let prefix = prefixes[active];
        law_job_names(labels, prefix);
        lemma_jobs_from(container, prefix, job_names(labels, prefix));
    }
}

/// The container at position `c` contributes `job` to a pass.
pub open spec fn contributes(
    containers: Seq<ContainerView>,
    selector: Option<LabelView>,
    prefixes: Seq<Seq<char>>,
    c: int,
    job: JobView,
) -> bool {
    &&& 0 <= c < containers.len()
    &&& jobs_of_container(containers[c], selector, prefixes) matches Ok(jobs)
    &&& jobs.contains(job)
}

/// One of the containers contributes `job` to a pass.
pub open spec fn has_source(
    containers: Seq<ContainerView>,
    selector: Option<LabelView>,
    prefixes: Seq<Seq<char>>,
    job: JobView,
) -> bool {
    exists|c: int| #[trigger] contributes(containers, selector, prefixes, c, job)
}

/// Two containers clash: they have the same identifier, and each defines a
/// job of the same name.
pub open spec fn clash(
    first: ContainerView,
    second: ContainerView,
    selector: Option<LabelView>,
    prefixes: Seq<Seq<char>>,
) -> bool {
    &&& first.id == second.id
    &&& jobs_of_container(first, selector, prefixes) matches Ok(mine)
    &&& jobs_of_container(second, selector, prefixes) matches Ok(theirs)
    &&& exists|name: Seq<char>| #[trigger] has_job(mine, name) && has_job(theirs, name)
}

/// Every job of a pass is contributed by one of the containers: a container
/// that contributes no job has none in the result.
pub proof fn law_jobs_come_from_containers(
    containers: Seq<ContainerView>,
    selector: Option<LabelView>,
    prefixes: Seq<Seq<char>>,
)
    ensures
        match discovered(containers, selector, prefixes) {
            Ok(jobs) => forall|j: int|
                0 <= j < jobs.len() ==> has_source(
                    containers,
                    selector,
                    prefixes,
                    #[trigger] jobs[j],
                ),
            Err(_) => true,
        },
    decreases containers.len(),
{
    if containers.len() > 0 {
        let init = containers.drop_last();
        let last = containers.len() - 1;
        law_jobs_come_from_containers(init, selector, prefixes);
        match discovered(containers, selector, prefixes) {
            Ok(jobs) => {
                let before = discovered(init, selector, prefixes)->Ok_0;
                let more = jobs_of_container(containers.last(), selector, prefixes)->Ok_0;
                assert forall|j: int| 0 <= j < jobs.len() implies has_source(
                    containers,
                    selector,
                    prefixes,
                    #[trigger] jobs[j],
                ) by {
                    if j < before.len() {
                        assert(jobs[j] == before[j]);
                        assert(has_source(init, selector, prefixes, before[j]));
                        let c = choose|c: int| #[trigger]
                            contributes(init, selector, prefixes, c, before[j]);
                        assert(init[c] == containers[c]);
                        assert(contributes(containers, selector, prefixes, c, jobs[j]));
                    } else {
                        assert(jobs[j] == more[j - before.len()]);
                        assert(more.contains(jobs[j]));
                        assert(contributes(containers, selector, prefixes, last, jobs[j]));
                    }
                }
            },
            Err(_) => {},
        }
    }
}

/// In the result of one pass, no pair of container identifier and job name
/// occurs twice, unless two of the containers clash.
pub proof fn law_discovered_jobs_unique(
    containers: Seq<ContainerView>,
    selector: Option<LabelView>,
    prefixes: Seq<Seq<char>>,
)
    requires
        forall|a: int, b: int|
            0 <= a < b < containers.len() ==> !clash(
                #[trigger] containers[a],
                #[trigger] containers[b],
                selector,
                prefixes,
            ),
    ensures
        match discovered(containers, selector, prefixes) {
            Ok(jobs) => distinct_jobs(jobs),
            Err(_) => true,
        },
    decreases containers.len(),
{
    if containers.len() > 0 {
        let init = containers.drop_last();
        let last = containers.len() - 1;
        assert forall|a: int, b: int| 0 <= a < b < init.len() implies !clash(
            #[trigger] init[a],
            #[trigger] init[b],
            selector,
            prefixes,
        ) by {
            assert(!clash(containers[a], containers[b], selector, prefixes));
        }
        law_discovered_jobs_unique(init, selector, prefixes);
        law_jobs_come_from_containers(init, selector, prefixes);
        law_container_jobs_unique(containers.last(), selector, prefixes);
        match discovered(containers, selector, prefixes) {
            Ok(jobs) => {
                let before = discovered(init, selector, prefixes)->Ok_0;
                let more = jobs_of_container(containers.last(), selector, prefixes)->Ok_0;
                assert forall|i: int, j: int| 0 <= i < j < jobs.len() implies !((
                #[trigger] jobs[i]).container_id == (#[trigger] jobs[j]).container_id
                    && jobs[i].name == jobs[j].name) by {
                    if j < before.len() {
                        assert(jobs[i] == before[i] && jobs[j] == before[j]);
                    } else if i < before.len() {
                        assert(jobs[i] == before[i]);
                        assert(jobs[j] == more[j - before.len()]);
                        assert(has_source(init, selector, prefixes, before[i]));
                        let c = choose|c: int| #[trigger]
                            contributes(init, selector, prefixes, c, before[i]);
                        let theirs = jobs_of_container(init[c], selector, prefixes)->Ok_0;
                        law_container_jobs_unique(init[c], selector, prefixes);
                        let w = choose|w: int| 0 <= w < theirs.len() && theirs[w] == before[i];
                        assert(theirs[w].container_id == init[c].id);
                        assert(!clash(containers[c], containers[last], selector, prefixes));
                        if jobs[i].container_id == jobs[j].container_id && jobs[i].name
                            == jobs[j].name {
                            assert(has_job(theirs, theirs[w].name));
                            assert(has_job(more, more[j - before.len()].name));
                            assert(false);
                        }
                    } else {
                        assert(jobs[i] == more[i - before.len()]);
                        assert(jobs[j] == more[j - before.len()]);
                    }
                }
            },
            Err(_) => {},
        }
    }
}

/// Containers of distinct identifiers do not clash.
pub proof fn law_distinct_ids_never_clash(
    containers: Seq<ContainerView>,
    selector: Option<LabelView>,
    prefixes: Seq<Seq<char>>,
)
    requires
        distinct_ids(containers),
    ensures
        forall|a: int, b: int|
            0 <= a < b < containers.len() ==> !clash(
                #[trigger] containers[a],
                #[trigger] containers[b],
                selector,
                prefixes,
            ),
        match discovered(containers, selector, prefixes) {
            Ok(jobs) => distinct_jobs(jobs),
            Err(_) => true,
        },
{
    assert forall|a: int, b: int| 0 <= a < b < containers.len() implies !clash(
        #[trigger] containers[a],
        #[trigger] containers[b],
        selector,
        prefixes,
    ) by {
        assert(containers[a].id != containers[b].id);
    }
    law_discovered_jobs_unique(containers, selector, prefixes);
}

} // verus!
