use dockcron::discovery::{
    active_prefix, assemble_job, build_job, collect_job_names, container_jobs, discover, holds_name,
    overlap_policy, passes_selector, prefix_enabled, shown_name, Container, DiscoveryError, Job,
};
use dockcron::gate::{OverlapGate, OverlapPolicy};
use dockcron::interval::Interval;
use dockcron::label::{Label, LabelMap};
use dockcron::job_label::JobField;
use dockcron::schedule::JobSchedule;
use dockcron::skipped::{container_skipped, find_missing, skipped_jobs, SkippedJob};

fn labels(pairs: &[(&str, &str)]) -> LabelMap {
    let mut map = LabelMap::new();
    for (k, v) in pairs {
        map.insert(k.to_string(), v.to_string());
    }
    map
}

fn container(id: &str, names: &[&str], pairs: &[(&str, &str)]) -> Container {
    Container {
        id: id.to_string(),
        names: names.iter().map(|n| n.to_string()).collect(),
        labels: labels(pairs),
    }
}

fn prefixes() -> Vec<String> {
    vec!["dockcron".to_string(), "ofelia".to_string(), "chadburn".to_string()]
}

fn names_of(jobs: &[Job]) -> Vec<&str> {
    jobs.iter().map(|j| j.name.as_str()).collect()
}

#[test]
fn backup_labels_yield_one_cron_job_that_allows_overlap() {
    let c = container(
        "0123456789abcdef",
        &["/db"],
        &[
            ("dockcron.enabled", "true"),
            ("dockcron.job-exec.backup.schedule", "@cron 0 0 * * *"),
            ("dockcron.job-exec.backup.command", "tar -czf /backup.tgz /data"),
        ],
    );
    let jobs = discover(&[c], None, &prefixes()).unwrap();
    assert_eq!(jobs.len(), 1);
    let job = &jobs[0];
    assert_eq!(job.name, "backup");
    assert_eq!(job.container_id, "0123456789abcdef");
    assert_eq!(job.container_name, "/db");
    assert_eq!(job.command, "tar -czf /backup.tgz /data");
    assert_eq!(job.overlap, OverlapPolicy::Allow);
    assert_eq!(job.gate, OverlapGate { held: false });
    match &job.schedule {
        JobSchedule::Cron(expr) => assert_eq!(expr.source(), "0 0 * * *"),
        other => panic!("not a cron schedule: {:?}", other),
    }
}

#[test]
fn malformed_schedule_fails_discovery_with_its_context() {
    let good = container(
        "aaa",
        &["/good"],
        &[
            ("dockcron.enabled", "true"),
            ("dockcron.job-exec.ok.schedule", "@hourly"),
            ("dockcron.job-exec.ok.command", "true"),
        ],
    );
    let bad = container(
        "bbb",
        &["/bad"],
        &[
            ("dockcron.enabled", "true"),
            ("dockcron.job-exec.broken.schedule", "@every notaduration"),
            ("dockcron.job-exec.broken.command", "true"),
        ],
    );
    let r = discover(&[good, bad], None, &prefixes());
    assert_eq!(
        r,
        Err(DiscoveryError::InvalidSchedule {
            container: "/bad".to_string(),
            job: "broken".to_string(),
            schedule: "@every notaduration".to_string(),
        })
    );
}

#[test]
fn container_without_enabled_label_contributes_nothing() {
    let job_labels = [
        ("dockcron.job-exec.backup.schedule", "@hourly"),
        ("dockcron.job-exec.backup.command", "true"),
    ];
    let missing = container("a", &[], &job_labels);
    assert_eq!(discover(&[missing], None, &prefixes()), Ok(vec![]));
    for value in ["false", "TRUE", "True", " true", "true ", "1", ""] {
        let mut pairs = vec![("dockcron.enabled", value)];
        pairs.extend_from_slice(&job_labels);
        let c = container("a", &[], &pairs);
        assert_eq!(discover(&[c], None, &prefixes()), Ok(vec![]), "{:?}", value);
    }
    let other = container("a", &[], &[("other.enabled", "true"), ("other.job-exec.j.schedule", "@hourly"), ("other.job-exec.j.command", "true")]);
    assert_eq!(discover(&[other], None, &prefixes()), Ok(vec![]));
}

#[test]
fn incomplete_jobs_are_left_out_and_the_others_stay() {
    let c = container(
        "a",
        &["/c"],
        &[
            ("dockcron.enabled", "true"),
            ("dockcron.job-exec.noschedule.command", "true"),
            ("dockcron.job-exec.full.schedule", "@every 5m"),
            ("dockcron.job-exec.nocommand.schedule", "@every notaduration"),
            ("dockcron.job-exec.full.command", "echo hi"),
            ("dockcron.job-exec.onlyflag.no-overlap", "true"),
        ],
    );
    let jobs = discover(&[c], None, &prefixes()).unwrap();
    assert_eq!(names_of(&jobs), vec!["full"]);
    assert_eq!(jobs[0].schedule, JobSchedule::Every(Interval { secs: 300, nanos: 0 }));
    assert_eq!(jobs[0].command, "echo hi");
}

#[test]
fn job_names_are_unique_within_a_container() {
    let c = container(
        "a",
        &["/c"],
        &[
            ("dockcron.enabled", "true"),
            ("dockcron.job-exec.one.schedule", "@hourly"),
            ("dockcron.job-exec.two.schedule", "@daily"),
            ("dockcron.job-exec.one.command", "1"),
            ("dockcron.job-exec.two.command", "2"),
            ("dockcron.job-exec.one.no-overlap", "true"),
        ],
    );
    let d = container(
        "b",
        &["/d"],
        &[
            ("dockcron.enabled", "true"),
            ("dockcron.job-exec.one.schedule", "@weekly"),
            ("dockcron.job-exec.one.command", "3"),
        ],
    );
    let jobs = discover(&[c, d], None, &prefixes()).unwrap();
    let pairs: Vec<(&str, &str)> =
        jobs.iter().map(|j| (j.container_id.as_str(), j.name.as_str())).collect();
    assert_eq!(pairs, vec![("a", "one"), ("a", "two"), ("b", "one")]);
    assert_eq!(jobs[0].overlap, OverlapPolicy::Skip);
    assert_eq!(jobs[1].overlap, OverlapPolicy::Allow);
}

#[test]
fn first_enabled_prefix_wins() {
    let c = container(
        "a",
        &["/c"],
        &[
            ("chadburn.enabled", "true"),
            ("ofelia.enabled", "true"),
            ("dockcron.enabled", "false"),
            ("dockcron.job-exec.d.schedule", "@hourly"),
            ("dockcron.job-exec.d.command", "d"),
            ("ofelia.job-exec.o.schedule", "@hourly"),
            ("ofelia.job-exec.o.command", "o"),
            ("chadburn.job-exec.c.schedule", "@hourly"),
            ("chadburn.job-exec.c.command", "c"),
        ],
    );
    let jobs = discover(std::slice::from_ref(&c), None, &prefixes()).unwrap();
    assert_eq!(names_of(&jobs), vec!["o"]);
    assert_eq!(active_prefix(&c.labels, &prefixes()), 1);
    assert!(prefix_enabled(&c.labels, "chadburn"));
    assert!(!prefix_enabled(&c.labels, "dockcron"));
    let reversed = vec!["chadburn".to_string(), "ofelia".to_string()];
    let jobs = discover(std::slice::from_ref(&c), None, &reversed).unwrap();
    assert_eq!(names_of(&jobs), vec!["c"]);
    assert_eq!(active_prefix(&c.labels, &[]), 0);
    assert_eq!(active_prefix(&labels(&[]), &prefixes()), 3);
}

#[test]
fn selector_keeps_only_containers_with_the_label() {
    let job = [
        ("dockcron.enabled", "true"),
        ("dockcron.job-exec.j.schedule", "@hourly"),
        ("dockcron.job-exec.j.command", "true"),
    ];
    let mut prod = job.to_vec();
    prod.push(("env", "prod"));
    let mut dev = job.to_vec();
    dev.push(("env", "dev"));
    let cs = [container("p", &["/p"], &prod), container("d", &["/d"], &dev), container("n", &["/n"], &job)];
    let selector = Label { key: "env".to_string(), value: "prod".to_string() };
    let jobs = discover(&cs, Some(selector.clone()), &prefixes()).unwrap();
    assert_eq!(jobs.iter().map(|j| j.container_id.as_str()).collect::<Vec<_>>(), vec!["p"]);
    let all = discover(&cs, None, &prefixes()).unwrap();
    assert_eq!(all.len(), 3);
    assert!(passes_selector(&cs[0].labels, &Some(selector.clone())));
    assert!(!passes_selector(&cs[1].labels, &Some(selector.clone())));
    assert!(!passes_selector(&cs[2].labels, &Some(selector)));
    assert!(passes_selector(&cs[2].labels, &None));
}

#[test]
fn a_bad_schedule_on_a_filtered_container_does_not_fail_discovery() {
    let bad = container(
        "b",
        &["/b"],
        &[
            ("dockcron.enabled", "true"),
            ("dockcron.job-exec.j.schedule", "never"),
            ("dockcron.job-exec.j.command", "true"),
        ],
    );
    let selector = Label { key: "env".to_string(), value: "prod".to_string() };
    assert_eq!(discover(&[bad], Some(selector), &prefixes()), Ok(vec![]));
}

#[test]
fn shown_name_is_the_first_name_or_the_short_id() {
    assert_eq!(shown_name(&container("0123456789abcdefgh", &["/first", "/second"], &[])), "/first");
    assert_eq!(shown_name(&container("0123456789abcdefgh", &[], &[])), "0123456789ab");
    assert_eq!(shown_name(&container("0123456789ab", &[], &[])), "0123456789ab");
    assert_eq!(shown_name(&container("short", &[], &[])), "short");
    assert_eq!(shown_name(&container("", &[], &[])), "");
    assert_eq!(shown_name(&container("éééééééééééééé", &[], &[])), "éééééééééééé");
}

#[test]
fn no_overlap_counts_only_as_trimmed_true() {
    assert_eq!(overlap_policy(Some("true")), OverlapPolicy::Skip);
    assert_eq!(overlap_policy(Some("  true\n")), OverlapPolicy::Skip);
    assert_eq!(overlap_policy(Some("True")), OverlapPolicy::Allow);
    assert_eq!(overlap_policy(Some("yes")), OverlapPolicy::Allow);
    assert_eq!(overlap_policy(Some("")), OverlapPolicy::Allow);
    assert_eq!(overlap_policy(Some("false")), OverlapPolicy::Allow);
    assert_eq!(overlap_policy(None), OverlapPolicy::Allow);
}

#[test]
fn job_names_come_in_the_order_of_their_first_label() {
    let map = labels(&[
        ("p.job-exec.b.command", "x"),
        ("p.enabled", "true"),
        ("p.job-exec.a.schedule", "x"),
        ("p.job-exec.b.schedule", "x"),
        ("q.job-exec.c.schedule", "x"),
        ("p.job-exec.a.no-overlap", "x"),
    ]);
    assert_eq!(collect_job_names(&map, "p"), vec!["b".to_string(), "a".to_string()]);
    assert_eq!(collect_job_names(&map, "q"), vec!["c".to_string()]);
    assert_eq!(collect_job_names(&map, "r"), Vec::<String>::new());
    let names = vec!["b".to_string(), "a".to_string()];
    assert!(holds_name(&names, "a"));
    assert!(!holds_name(&names, "c"));
}

#[test]
fn build_job_reads_the_three_settings() {
    let c = container(
        "0123456789abcdef",
        &[],
        &[
            ("p.job-exec.j.schedule", " @every 10s "),
            ("p.job-exec.j.command", "echo  hi"),
            ("p.job-exec.j.no-overlap", " true "),
            ("p.job-exec.k.schedule", "@hourly"),
            ("p.job-exec.m.schedule", "soon"),
            ("p.job-exec.m.command", "true"),
        ],
    );
    let job = build_job(&c, "p", "j").unwrap().unwrap();
    assert_eq!(
        job,
        Job {
            container_id: "0123456789abcdef".to_string(),
            container_name: "0123456789ab".to_string(),
            name: "j".to_string(),
            schedule: JobSchedule::Every(Interval { secs: 10, nanos: 0 }),
            command: "echo  hi".to_string(),
            overlap: OverlapPolicy::Skip,
            gate: OverlapGate { held: false },
        }
    );
    assert_eq!(build_job(&c, "p", "k"), None);
    assert_eq!(build_job(&c, "p", "absent"), None);
    assert_eq!(
        build_job(&c, "p", "m"),
        Some(Err(DiscoveryError::InvalidSchedule {
            container: "0123456789ab".to_string(),
            job: "m".to_string(),
            schedule: "soon".to_string(),
        }))
    );
}

#[test]
fn no_containers_and_no_prefixes_give_no_jobs() {
    assert_eq!(discover(&[], None, &prefixes()), Ok(vec![]));
    let c = container("a", &[], &[("dockcron.enabled", "true"), ("dockcron.job-exec.j.schedule", "@hourly"), ("dockcron.job-exec.j.command", "true")]);
    assert_eq!(discover(std::slice::from_ref(&c), None, &[]), Ok(vec![]));
    assert_eq!(container_jobs(&c, &None, &prefixes()).map(|j| j.len()), Ok(1));
}

#[test]
fn assemble_job_needs_a_schedule_that_was_read() {
    let c = container("0123456789abcdef", &["/web", "/alias"], &[]);
    let hourly = JobSchedule::Every(Interval { secs: 3600, nanos: 0 });
    assert_eq!(
        assemble_job(&c, "j", "@hourly", Some(hourly.clone()), "ls -l", Some("true\n")),
        Ok(Job {
            container_id: "0123456789abcdef".to_string(),
            container_name: "/web".to_string(),
            name: "j".to_string(),
            schedule: hourly,
            command: "ls -l".to_string(),
            overlap: OverlapPolicy::Skip,
            gate: OverlapGate { held: false },
        })
    );
    assert_eq!(
        assemble_job(&c, "j", "whenever", None, "ls -l", None),
        Err(DiscoveryError::InvalidSchedule {
            container: "/web".to_string(),
            job: "j".to_string(),
            schedule: "whenever".to_string(),
        })
    );
}

fn skipped(container: &str, job: &str, missing: JobField) -> SkippedJob {
    SkippedJob { container: container.to_string(), job: job.to_string(), missing }
}

#[test]
fn skipped_jobs_name_the_setting_that_is_missing() {
    let c = container(
        "a",
        &["/c"],
        &[
            ("dockcron.enabled", "true"),
            ("dockcron.job-exec.noschedule.command", "true"),
            ("dockcron.job-exec.full.schedule", "@every 5m"),
            ("dockcron.job-exec.nocommand.schedule", "@every notaduration"),
            ("dockcron.job-exec.full.command", "echo hi"),
            ("dockcron.job-exec.onlyflag.no-overlap", "true"),
        ],
    );
    let d = container(
        "0123456789abcdef",
        &[],
        &[("ofelia.enabled", "true"), ("ofelia.job-exec.x.command", "true")],
    );
    let off = container("off", &[], &[("dockcron.job-exec.y.command", "true")]);
    let cs = [c, d, off];
    assert_eq!(
        skipped_jobs(&cs, &None, &prefixes()),
        vec![
            skipped("/c", "noschedule", JobField::Schedule),
            skipped("/c", "nocommand", JobField::Command),
            skipped("/c", "onlyflag", JobField::Schedule),
            skipped("0123456789ab", "x", JobField::Schedule),
        ]
    );
    assert_eq!(names_of(&discover(&cs, None, &prefixes()).unwrap()), vec!["full"]);
    let selector = Some(Label { key: "env".to_string(), value: "prod".to_string() });
    assert_eq!(skipped_jobs(&cs, &selector, &prefixes()), vec![]);
    assert_eq!(container_skipped(&cs[2], &None, &prefixes()), vec![]);
    assert_eq!(find_missing(&cs[0], "dockcron", "full"), None);
    assert_eq!(find_missing(&cs[0], "dockcron", "nocommand"), Some(JobField::Command));
    assert_eq!(find_missing(&cs[0], "dockcron", "absent"), Some(JobField::Schedule));
}
