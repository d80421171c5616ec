use dockcron::cron_expr::{count_words, CronExpression};
use dockcron::interval::{char_is_unit_letter, Interval};
use dockcron::schedule::{classify, shorthand, JobSchedule, ScheduleError, ScheduleForm};
use dockcron::timestamp::Timestamp;

fn secs(n: u64) -> Interval {
    Interval { secs: n, nanos: 0 }
}

#[test]
fn every_one_hour_is_an_interval_of_3600_seconds() {
    let schedule = JobSchedule::from_str("@every 1h").unwrap();
    assert_eq!(schedule, JobSchedule::Every(secs(3600)));
}

#[test]
fn daily_expands_and_renders_as_one_day() {
    let schedule = JobSchedule::from_str("@daily").unwrap();
    assert_eq!(schedule, JobSchedule::Every(secs(86_400)));
    assert_eq!(schedule.to_string(), "@every 1day");
}

#[test]
fn malformed_duration_is_unsupported() {
    assert_eq!(
        JobSchedule::from_str("@every notaduration"),
        Err(ScheduleError::UnsupportedSchedule)
    );
}

#[test]
fn shorthands_expand_to_their_intervals() {
    assert_eq!(JobSchedule::from_str("@hourly"), Ok(JobSchedule::Every(secs(3600))));
    assert_eq!(JobSchedule::from_str("@daily"), Ok(JobSchedule::Every(secs(24 * 3600))));
    assert_eq!(JobSchedule::from_str("@weekly"), Ok(JobSchedule::Every(secs(168 * 3600))));
    assert_eq!(JobSchedule::from_str("@monthly"), Ok(JobSchedule::Every(secs(30 * 24 * 3600))));
    assert_eq!(shorthand("@hourly"), Some(secs(3600)));
    assert_eq!(shorthand("@yearly"), None);
    assert_eq!(shorthand("@Hourly"), None);
}

#[test]
fn definitions_are_trimmed_before_they_are_read() {
    assert_eq!(JobSchedule::from_str("  @every 90s \n"), Ok(JobSchedule::Every(secs(90))));
    assert_eq!(JobSchedule::from_str("\t@weekly "), Ok(JobSchedule::Every(secs(604_800))));
}

#[test]
fn every_reads_compound_and_fractional_durations() {
    assert_eq!(JobSchedule::from_str("@every 1h30m"), Ok(JobSchedule::Every(secs(5400))));
    assert_eq!(JobSchedule::from_str("@every 2h 37min"), Ok(JobSchedule::Every(secs(9420))));
    assert_eq!(
        JobSchedule::from_str("@every 1500ms"),
        Ok(JobSchedule::Every(Interval { secs: 1, nanos: 500_000_000 }))
    );
    assert_eq!(JobSchedule::from_str("@every 0s"), Ok(JobSchedule::Every(secs(0))));
}

#[test]
fn every_without_a_duration_is_unsupported() {
    assert_eq!(JobSchedule::from_str("@every "), Err(ScheduleError::UnsupportedSchedule));
    assert_eq!(JobSchedule::from_str("@every"), Err(ScheduleError::UnsupportedSchedule));
    assert_eq!(JobSchedule::from_str("@every 5"), Err(ScheduleError::UnsupportedSchedule));
    assert_eq!(JobSchedule::from_str("@every 5 parsecs"), Err(ScheduleError::UnsupportedSchedule));
}

#[test]
fn classify_tells_the_forms_apart_in_order() {
    assert_eq!(classify(" @every 1h "), ScheduleForm::Every("1h"));
    assert_eq!(classify("@cron 0 0 * * *"), ScheduleForm::Cron("0 0 * * *"));
    assert_eq!(classify("@hourly"), ScheduleForm::Shorthand(secs(3600)));
    assert_eq!(classify("@monthly"), ScheduleForm::Shorthand(secs(2_592_000)));
    assert_eq!(classify("0 0 * * * *"), ScheduleForm::Raw("0 0 * * * *"));
    assert_eq!(classify("@every"), ScheduleForm::Raw("@every"));
    assert_eq!(classify("@daily now"), ScheduleForm::Raw("@daily now"));
    assert_eq!(classify(""), ScheduleForm::Raw(""));
    assert_eq!(classify("@every  2m"), ScheduleForm::Every(" 2m"));
}

#[test]
fn cron_prefix_reads_six_field_expressions() {
    let schedule = JobSchedule::from_str("@cron 0 30 9 * * Mon-Fri").unwrap();
    match &schedule {
        JobSchedule::Cron(expr) => assert_eq!(expr.source(), "0 30 9 * * Mon-Fri"),
        other => panic!("not a cron schedule: {:?}", other),
    }
    assert_eq!(schedule.to_string(), "@cron 0 30 9 * * Mon-Fri");
}

#[test]
fn cron_prefix_reads_five_field_expressions() {
    let schedule = JobSchedule::from_str("@cron 0 0 * * *").unwrap();
    match &schedule {
        JobSchedule::Cron(expr) => assert_eq!(expr.source(), "0 0 * * *"),
        other => panic!("not a cron schedule: {:?}", other),
    }
    assert_eq!(schedule.to_string(), "@cron 0 0 * * *");
}

#[test]
fn raw_cron_expressions_are_read_without_a_prefix() {
    let schedule = JobSchedule::from_str("0 */5 * * * *").unwrap();
    assert_eq!(schedule.to_string(), "@cron 0 */5 * * * *");
    let yearly = JobSchedule::from_str("@yearly").unwrap();
    assert_eq!(yearly.to_string(), "@cron @yearly");
}

#[test]
fn what_is_no_schedule_is_unsupported() {
    for text in ["", "   ", "tomorrow", "@cron", "@cron ", "@cron nonsense", "* * *", "@every1h", "@fortnightly"] {
        assert_eq!(
            JobSchedule::from_str(text),
            Err(ScheduleError::UnsupportedSchedule),
            "{:?}",
            text
        );
    }
}

#[test]
fn rendered_intervals_parse_back() {
    for iv in [
        secs(0),
        secs(1),
        secs(59),
        secs(3600),
        secs(86_400),
        secs(2_592_000),
        secs(31_557_600),
        secs(31_557_599_999_999_999),
        secs(u64::MAX),
        Interval { secs: 1, nanos: 1 },
        Interval { secs: 0, nanos: 999_999_999 },
        Interval { secs: 123_456_789, nanos: 123_456_789 },
    ] {
        let schedule = JobSchedule::Every(iv);
        let text = schedule.to_string();
        assert_eq!(JobSchedule::from_str(&text), Ok(schedule), "{}", text);
    }
}

#[test]
fn rendered_cron_schedules_parse_back() {
    for text in ["@cron 0 0 * * *", "0 0 12 * * *", "@cron  @daily", "@cron 0 0 0 1 1 * 2030", "@yearly"] {
        let schedule = JobSchedule::from_str(text).unwrap();
        let rendered = schedule.to_string();
        assert_eq!(JobSchedule::from_str(&rendered), Ok(schedule), "{}", text);
    }
}

#[test]
fn rendering_has_the_canonical_prefixes() {
    assert_eq!(JobSchedule::Every(secs(3600)).to_string(), "@every 1h");
    assert_eq!(JobSchedule::Every(secs(5400)).to_string(), "@every 1h 30m");
    assert_eq!(JobSchedule::Every(secs(0)).to_string(), "@every 0s");
    assert_eq!(
        JobSchedule::Every(Interval { secs: 0, nanos: 32_000_000 }).to_string(),
        "@every 32ms"
    );
}

#[test]
fn interval_parse_and_render_use_the_duration_grammar() {
    assert_eq!(Interval::parse("1h 30m"), Some(secs(5400)));
    assert_eq!(Interval::parse("4.2s"), Some(Interval { secs: 4, nanos: 200_000_000 }));
    assert_eq!(Interval::parse("1h30"), None);
    assert_eq!(Interval::parse(""), None);
    assert_eq!(secs(9420).render(), "2h 37m");
    assert_eq!(Interval::from_secs(7), secs(7));
}

fn by_the_parser(text: &str) -> Option<Interval> {
    humantime::parse_duration(text)
        .ok()
        .map(|d| Interval { secs: d.as_secs(), nanos: d.subsec_nanos() })
}

#[test]
fn long_numbers_and_long_texts_are_read() {
    assert_eq!(Interval::parse("10000000000ns"), Some(secs(10)));
    assert_eq!(Interval::parse("1000000000s"), Some(secs(1_000_000_000)));
    assert_eq!(Interval::parse("12345 67890ns"), Some(Interval { secs: 1, nanos: 234_567_890 }));
    assert_eq!(Interval::parse("18446744073709551615s"), Some(secs(u64::MAX)));
    assert_eq!(
        Interval::parse("18446744073709551615s 999ms 999us 999ns"),
        Some(Interval { secs: u64::MAX, nanos: 999_999_999 })
    );
    assert_eq!(
        JobSchedule::from_str("@every 10000000000ns"),
        Ok(JobSchedule::Every(secs(10)))
    );
    let long = "1s ".repeat(100);
    assert_eq!(long.chars().count(), 300);
    assert_eq!(Interval::parse(&long), Some(secs(100)));
}

#[test]
fn sums_beyond_the_longest_interval_are_not_read() {
    for text in [
        "18446744073709551615s 1s",
        "18446744073709551615s 1000000000ns",
        "18446744073709551615s 1000ms",
        "584542046090y 19767615s 1000ms",
        "18446744073709551615s 999999999ns 1ns",
        "584554049254y",
        "18446744073709551616s",
    ] {
        assert_eq!(Interval::parse(text), None, "{}", text);
        assert_eq!(
            JobSchedule::from_str(&format!("@every {}", text)),
            Err(ScheduleError::UnsupportedSchedule),
            "{}",
            text
        );
    }
    assert_eq!(Interval::parse("584542046090y 19767615s"), Some(secs(u64::MAX)));
}

#[test]
fn intervals_add_up_with_a_carry() {
    let a = Interval { secs: 1, nanos: 600_000_000 };
    let b = Interval { secs: 2, nanos: 400_000_000 };
    assert_eq!(a.checked_add(b), Some(secs(4)));
    assert_eq!(a.checked_add(a), Some(Interval { secs: 3, nanos: 200_000_000 }));
    assert_eq!(secs(0).checked_add(b), Some(b));
    assert_eq!(secs(u64::MAX).checked_add(secs(0)), Some(secs(u64::MAX)));
    assert_eq!(secs(u64::MAX).checked_add(secs(1)), None);
    let top = Interval { secs: u64::MAX, nanos: 999_999_999 };
    assert_eq!(top.checked_add(Interval { secs: 0, nanos: 1 }), None);
    assert_eq!(top.checked_add(secs(0)), Some(top));
}

#[test]
fn unit_letters_are_the_letters_of_unit_names() {
    for c in ['a', 'z', 'A', 'Z', 'm', '\u{b5}'] {
        assert!(char_is_unit_letter(c), "{:?}", c);
    }
    for c in ['0', '9', ' ', '.', '@', '[', '`', '{', 'é', '\u{3bc}'] {
        assert!(!char_is_unit_letter(c), "{:?}", c);
    }
}

#[test]
fn every_interval_renders_to_a_text_that_reads_back() {
    for iv in [
        secs(31_557_600_000_000_000),
        secs(u64::MAX),
        Interval { secs: u64::MAX, nanos: 999_999_999 },
        Interval { secs: u64::MAX - 1, nanos: 1 },
        secs(18_446_744_073_689_784_000),
    ] {
        let text = iv.render();
        assert_eq!(Interval::parse(&text), Some(iv), "{}", text);
        let schedule = JobSchedule::Every(iv);
        assert_eq!(JobSchedule::from_str(&schedule.to_string()), Ok(schedule));
    }
    assert_eq!(secs(31_557_600_000_000_000).render(), "1000000000years");
}

#[test]
fn durations_are_read_as_the_duration_parser_reads_them() {
    for text in [
        "0", "1h0", "1h 0", " 0", "0 ", "00", "1 h", "1h 30 m", "1 0 h", "1.5h", "1. 5 h", "1.h",
        ".5h", "1.5.5h", "h", "h1m", "1", "1h2", "1hm", "1h!", "1h!5m", "!1h", "1h\t2m\n3s",
        "1\u{b5}s", "1\u{3bc}s", "1us2ms3ns", "1 y 2 M 3 w 4 d", "1year 2months 3days 4h 5m 6s",
        "1.000000000s", "0.0000000001s", "1.5ns", "999ms 18446744073709ms", "1000ms", "1000000us",
        "18446744073709551615ns", "18446744073709551616ns", "1h 18446744073709551615s",
        "5 parsecs", "", "   ", "1h30m", "2h 37min", "4.2s", "32ms", "1hour 12min 5s",
    ] {
        assert_eq!(Interval::parse(text), by_the_parser(text), "{:?}", text);
    }
}

#[test]
fn short_texts_are_read_as_the_duration_parser_reads_them() {
    let alphabet: Vec<char> = "0123456789  ..hmsnudwyM\u{b5}!\t".chars().collect();
    let mut state: u64 = 0x2545_f491_4f6c_dd1d;
    let mut accepted = 0;
    for _ in 0..40_000 {
        let mut text = String::new();
        state = state.wrapping_mul(6364136223846793005).wrapping_add(1442695040888963407);
        let len = (state >> 33) % 11;
        for _ in 0..len {
            state = state.wrapping_mul(6364136223846793005).wrapping_add(1442695040888963407);
            text.push(alphabet[((state >> 33) % alphabet.len() as u64) as usize]);
        }
        let expected = by_the_parser(&text);
        if expected.is_some() {
            accepted += 1;
        }
        assert_eq!(Interval::parse(&text), expected, "{:?}", text);
    }
    assert!(accepted > 500);
}

#[test]
fn words_are_counted_between_whitespace() {
    assert_eq!(count_words(""), 0);
    assert_eq!(count_words("   "), 0);
    assert_eq!(count_words("0 0 * * *"), 5);
    assert_eq!(count_words("  0  0\t*\n* *  "), 5);
    assert_eq!(count_words("0 0 * * * *"), 6);
    assert_eq!(count_words("@daily"), 1);
}

#[test]
fn five_field_expressions_get_a_seconds_field() {
    assert_eq!(CronExpression::compiled_form("0 0 * * *"), "0 0 0 * * *");
    assert_eq!(CronExpression::compiled_form("0 0 * * * *"), "0 0 * * * *");
    assert_eq!(CronExpression::compiled_form("@daily"), "@daily");
}

#[test]
fn cron_expressions_are_judged_by_the_cron_parser() {
    assert!(CronExpression::parse("0 0 * * * *").is_some());
    assert!(CronExpression::parse("*/15 * * * *").is_some());
    assert!(CronExpression::parse("0 0 0 1 1 * 2030").is_some());
    assert!(CronExpression::parse("@hourly").is_some());
    assert!(CronExpression::parse("61 * * * * *").is_none());
    assert!(CronExpression::parse("* * * *").is_none());
    assert!(CronExpression::parse("").is_none());
    assert!(CronExpression::parse("0 0 * * * * ").is_none());
    assert!(CronExpression::parse("every day").is_none());
}

#[test]
fn cron_next_after_finds_the_next_match() {
    let now = Timestamp::new(1_700_000_000, 0).unwrap();
    let hourly = CronExpression::parse("0 0 * * * *").unwrap();
    assert_eq!(hourly.next_after(now), Some(1_700_002_800));
    let midnight = CronExpression::parse("0 0 * * *").unwrap();
    assert_eq!(midnight.next_after(now), Some(1_700_006_400));
    let at_match = Timestamp::new(1_700_002_800, 0).unwrap();
    assert_eq!(hourly.next_after(at_match), Some(1_700_006_400));
    let past = CronExpression::parse("0 0 0 1 1 * 2020").unwrap();
    assert_eq!(past.next_after(now), None);
}

#[test]
fn timestamps_outside_the_range_are_refused() {
    assert_eq!(Timestamp::new(0, 0), Some(Timestamp { secs: 0, nanos: 0 }));
    assert_eq!(Timestamp::new(8_000_000_000_000, 999_999_999).map(|t| t.secs), Some(8_000_000_000_000));
    assert_eq!(Timestamp::new(8_000_000_000_001, 0), None);
    assert_eq!(Timestamp::new(-8_000_000_000_001, 0), None);
    assert_eq!(Timestamp::new(0, 1_000_000_000), None);
}

#[test]
fn forms_resolve_with_what_the_parsers_found() {
    let hour = Some(secs(3600));
    let cron = CronExpression::parse("0 0 * * * *");
    assert!(cron.is_some());
    assert_eq!(ScheduleForm::Every("1h").resolve(hour, None), Ok(JobSchedule::Every(secs(3600))));
    assert_eq!(
        ScheduleForm::Every("1h").resolve(None, cron.clone()),
        Err(ScheduleError::UnsupportedSchedule)
    );
    assert_eq!(
        ScheduleForm::Cron("0 0 * * * *").resolve(hour, cron.clone()),
        Ok(JobSchedule::Cron(cron.clone().unwrap()))
    );
    assert_eq!(
        ScheduleForm::Raw("0 0 * * * *").resolve(None, cron.clone()),
        Ok(JobSchedule::Cron(cron.clone().unwrap()))
    );
    assert_eq!(ScheduleForm::Raw("x").resolve(hour, None), Err(ScheduleError::UnsupportedSchedule));
    assert_eq!(ScheduleForm::Cron("x").resolve(None, None), Err(ScheduleError::UnsupportedSchedule));
    assert_eq!(
        ScheduleForm::Shorthand(secs(86_400)).resolve(None, None),
        Ok(JobSchedule::Every(secs(86_400)))
    );
    assert_eq!(
        ScheduleForm::Shorthand(secs(86_400)).resolve(hour, cron),
        Ok(JobSchedule::Every(secs(86_400)))
    );
}
