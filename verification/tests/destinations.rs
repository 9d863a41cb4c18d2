use events_aggregator::constant::{
    EVENTS_JSON_FILE, EVENTS_JSON_ROTATED_FILE, LOKI_TENANT, LOKI_TENANT_HEADER, SERVICE_NAME,
};
use events_aggregator::exporter::disk::{pending_bytes, render_lines};
use events_aggregator::exporter::LogEvent;
use events_aggregator::exporter::loki::{
    push_accepted, push_body, push_body_at, push_body_from, push_endpoint, push_request,
    rejection_message,
};
use events_aggregator::exporter::mode::{select_mode, ExporterMode, ModeError};
use events_aggregator::exporter::rotation::{plan_rotation, RotationPlan};
use events_aggregator::exporter::size_limit::{limit_from_parsed, parse_dir_size_limit};
use events_aggregator::text::{decimal_text, trim_trailing_slashes};
use serde_json::Value;

fn event(subject: &str, line: &str) -> LogEvent {
    LogEvent {
        subject: subject.to_string(),
        line: line.to_string(),
    }
}

fn plan(remove_rotated: bool, rename_current: bool, remove_oversized: bool) -> RotationPlan {
    RotationPlan {
        remove_rotated,
        rename_current,
        remove_oversized,
    }
}

#[test]
fn lines_are_written_one_per_event() {
    assert_eq!(render_lines(&[]), "");
    let batch = [event("a", "first"), event("b", ""), event("c", "third é")];
    let text = render_lines(&batch);
    assert_eq!(text, "first\n\nthird é\n");
    assert_eq!(pending_bytes(&text), 16);
    let read: Vec<&str> = text.lines().collect();
    assert_eq!(read, vec!["first", "", "third é"]);
}

#[test]
fn no_rotation_while_the_file_fits() {
    // Each file may take 40 of the 100 bytes.
    assert_eq!(plan_rotation(20, 40, 100, 20), Some(plan(false, false, false)));
    assert_eq!(plan_rotation(0, 0, 100, 40), Some(plan(false, false, false)));
}

#[test]
fn file_that_would_overflow_is_rotated() {
    assert_eq!(plan_rotation(21, 0, 100, 20), Some(plan(false, true, false)));
    assert_eq!(plan_rotation(21, 5, 100, 20), Some(plan(true, true, false)));
}

#[test]
fn rotated_file_goes_where_nothing_replaces_it() {
    assert_eq!(plan_rotation(0, 5, 100, 41), Some(plan(true, false, false)));
}

#[test]
fn oversized_rotated_file_is_removed() {
    assert_eq!(plan_rotation(10, 41, 100, 10), Some(plan(false, false, true)));
    assert_eq!(plan_rotation(41, 41, 100, 10), Some(plan(true, true, true)));
    assert_eq!(plan_rotation(41, 0, 100, 0), Some(plan(false, true, true)));
}

#[test]
fn share_is_rounded_down() {
    // 40 % of 99 is 39.6.
    assert_eq!(plan_rotation(0, 39, 99, 39), Some(plan(false, false, false)));
    assert_eq!(plan_rotation(1, 0, 99, 39), Some(plan(false, true, false)));
    assert_eq!(plan_rotation(0, 1, 0, 0), Some(plan(false, false, true)));
}

#[test]
fn large_limits_and_files_do_not_overflow() {
    assert_eq!(plan_rotation(3, 0, 1 << 63, 1), Some(plan(false, false, false)));
    assert_eq!(plan_rotation(3, 0, usize::MAX, 1), Some(plan(false, false, false)));
    assert_eq!(plan_rotation(u64::MAX, 0, usize::MAX, usize::MAX), Some(plan(false, true, true)));
    assert_eq!(plan_rotation(u64::MAX, 0, usize::MAX - 1, usize::MAX), None);
    assert_eq!(plan_rotation(u64::MAX, u64::MAX, 100, 1), Some(plan(true, true, true)));
}

/// What the event file and the rotated file hold once a plan is done.
fn rotated(plan: RotationPlan, mut files: (String, String)) -> (String, String) {
    if plan.remove_rotated {
        files.1.clear();
    }
    if plan.rename_current {
        files = (String::new(), files.0);
    }
    if plan.remove_oversized {
        files.1.clear();
    }
    files
}

fn planned(files: &(String, String), limit: usize, pending: usize) -> RotationPlan {
    plan_rotation(files.0.len() as u64, files.1.len() as u64, limit, pending).unwrap()
}

#[test]
fn files_stay_within_their_shares() {
    let mut files = ("c".repeat(95), "r".repeat(70));
    for pending in [40usize, 1, 39, 7, 33, 12, 40, 40] {
        files = rotated(planned(&files, 100, pending), files);
        files.0.push_str(&"x".repeat(pending));
        assert!(files.0.len() <= 40 && files.1.len() <= 40);
    }
}

#[test]
fn files_together_stay_within_the_limit() {
    for current in (0..120).step_by(7) {
        for before in (0..120).step_by(11) {
            for pending in 0..=100 {
                let files = ("c".repeat(current), "r".repeat(before));
                let files = rotated(planned(&files, 100, pending), files);
                assert!(files.0.len() + pending + files.1.len() <= 100);
            }
        }
    }
}

#[test]
fn large_batch_keeps_the_event_file_only_where_there_is_room() {
    assert_eq!(plan_rotation(40, 0, 100, 60), Some(plan(false, true, false)));
    assert_eq!(plan_rotation(40, 0, 100, 61), Some(plan(false, true, true)));
    assert_eq!(plan_rotation(40, 40, 100, 61), Some(plan(true, true, true)));
    assert_eq!(plan_rotation(0, 40, 100, 100), Some(plan(true, false, false)));
    assert_eq!(plan_rotation(1, 0, 100, 100), Some(plan(false, true, true)));
}

#[test]
fn batch_over_the_limit_is_refused() {
    assert_eq!(plan_rotation(0, 0, 100, 101), None);
    assert_eq!(plan_rotation(40, 40, 100, 101), None);
    assert_eq!(plan_rotation(0, 0, 0, 1), None);
    assert_eq!(plan_rotation(0, 0, 0, 0), Some(plan(false, false, false)));
}

#[test]
fn plan_makes_room_and_is_not_needed_twice() {
    for current in (0..120).step_by(3) {
        for before in (0..120).step_by(5) {
            for pending in [0, 1, 20, 40, 41, 90] {
                let files = ("c".repeat(current), "r".repeat(before));
                let files = rotated(planned(&files, 100, pending), files);
                assert!(files.1.len() <= 40);
                assert!(files.0.len() + pending <= 40 || files.0.is_empty());
                if pending <= 40 {
                    assert_eq!(planned(&files, 100, pending), plan(false, false, false));
                }
            }
        }
    }
}

#[test]
fn files_hold_the_latest_history() {
    let mut files = ("first\n".to_string(), "oldest\n".to_string());
    let mut everything = "oldest\nfirst\n".to_string();
    let mut refused = 0;
    for number in 0..200 {
        let batch = [event("s", &"é".repeat(number % 37)), event("s", &format!("{number}"))];
        let text = render_lines(&batch);
        let pending = pending_bytes(&text);
        match plan_rotation(files.0.len() as u64, files.1.len() as u64, 60, pending) {
            Some(plan) => {
                files = rotated(plan, files);
                files.0.push_str(&text);
                everything.push_str(&text);
                assert!(files.0.ends_with(&text));
            }
            None => {
                assert!(pending > 60);
                refused += 1;
            }
        }
        assert!(everything.ends_with(&format!("{}{}", files.1, files.0)));
        assert!(files.1.len() + files.0.len() <= 60);
    }
    assert!(refused > 0 && refused < 200);
}

#[test]
fn rotation_keeps_the_event_file() {
    // The event file is within its share and there is room for both, so it is moved and not removed.
    for current in 1..=40 {
        let plan = plan_rotation(current, 17, 100, 60).unwrap();
        assert!(plan.remove_rotated && plan.rename_current && !plan.remove_oversized);
    }
}

#[test]
fn file_names() {
    assert_eq!(EVENTS_JSON_FILE, "events.json");
    assert_eq!(EVENTS_JSON_ROTATED_FILE, "events.1.json");
}

#[test]
fn endpoint_ignores_trailing_slashes() {
    let expected = "http://loki:3100/loki/api/v1/push";
    assert_eq!(push_endpoint("http://loki:3100"), expected);
    assert_eq!(push_endpoint("http://loki:3100/"), expected);
    assert_eq!(push_endpoint("http://loki:3100///"), expected);
    assert_eq!(push_endpoint("///"), "/loki/api/v1/push");
    assert_eq!(push_endpoint(""), "/loki/api/v1/push");
    assert_eq!(trim_trailing_slashes("/a/é//"), "/a/é");
}

#[test]
fn body_has_one_stream_per_event() {
    let batch = [event("events.a", "{\"x\":1}"), event("b\"\n", "é\u{1}")];
    let body = push_body_at(&batch, &[12, 340282366920938463463374607431768211455]);
    assert_eq!(
        body,
        concat_all(&[
            "{\"streams\":[",
            "{\"stream\":{\"app\":\"events-aggregator\",\"subject\":\"events.a\"},",
            "\"values\":[[\"12\",\"{\\\"x\\\":1}\"]]},",
            "{\"stream\":{\"app\":\"events-aggregator\",\"subject\":\"b\\\"\\n\"},",
            "\"values\":[[\"340282366920938463463374607431768211455\",\"é\\u0001\"]]}",
            "]}",
        ])
    );
    assert_eq!(push_body_at(&[], &[]), "{\"streams\":[]}");
}

fn concat_all(parts: &[&str]) -> String {
    parts.concat()
}

#[test]
fn body_reads_the_clock_for_each_event() {
    let batch = [event("a", "one"), event("b", "two")];
    let body: Value = serde_json::from_str(&push_body(&batch)).unwrap();
    let streams = body["streams"].as_array().unwrap();
    assert_eq!(streams.len(), 2);
    for (stream, event) in streams.iter().zip(batch.iter()) {
        assert_eq!(stream["stream"]["app"], SERVICE_NAME);
        assert_eq!(stream["stream"]["subject"], event.subject.as_str());
        assert_eq!(stream["values"][0][1], event.line.as_str());
        let nanos: u128 = stream["values"][0][0].as_str().unwrap().parse().unwrap();
        // Later than the year 2020.
        assert!(nanos > 1_577_836_800_000_000_000);
    }
}

#[test]
fn body_from_readings_of_the_clock() {
    let batch = [event("a", "one"), event("b", "two"), event("c", "three")];
    let readings = [None, Some(7), Some(1_700_000_000_123_456_789)];
    assert_eq!(
        push_body_from(&batch, &readings),
        push_body_at(&batch, &[0, 7, 1_700_000_000_123_456_789])
    );
    assert_eq!(push_body_from(&[], &[]), "{\"streams\":[]}");
}

#[test]
fn times_follow_the_clock() {
    let batch: Vec<LogEvent> = (0..40).map(|number| event("s", &format!("{number}"))).collect();
    let readings: Vec<Option<u128>> =
        (0..40).map(|number| if number < 9 { None } else { Some(number / 3) }).collect();
    let body: Value = serde_json::from_str(&push_body_from(&batch, &readings)).unwrap();
    let times: Vec<u128> = body["streams"]
        .as_array()
        .unwrap()
        .iter()
        .map(|stream| stream["values"][0][0].as_str().unwrap().parse().unwrap())
        .collect();
    assert_eq!(times.len(), 40);
    assert_eq!((times[0], times[8], times[9], times[39]), (0, 0, 3, 13));
    assert!(times.windows(2).all(|pair| pair[0] <= pair[1]));
}

#[test]
fn push_request_names_the_tenant() {
    let request = push_request("http://loki/", &[event("a", "one")]);
    assert_eq!(request.endpoint, "http://loki/loki/api/v1/push");
    assert_eq!(request.tenant_header, "X-Scope-OrgID");
    assert_eq!(request.tenant, "openebs");
    assert_eq!(LOKI_TENANT_HEADER, "X-Scope-OrgID");
    assert_eq!(LOKI_TENANT, "openebs");
    assert!(request.body.contains("\"subject\":\"a\""));
}

#[test]
fn push_is_accepted_by_its_status() {
    assert!(push_accepted(200));
    assert!(push_accepted(204));
    assert!(push_accepted(299));
    assert!(!push_accepted(199));
    assert!(!push_accepted(300));
    assert!(!push_accepted(500));
}

#[test]
fn rejection_quotes_the_answer() {
    assert_eq!(
        rejection_message("400 Bad Request", Some("entry too far behind".to_string())),
        "Loki rejected packet [Status 400 Bad Request]: entry too far behind"
    );
    assert_eq!(
        rejection_message("500 Internal Server Error", None),
        "Loki rejected packet [Status 500 Internal Server Error]: Unknown API error payload"
    );
}

#[test]
fn decimal_numbers() {
    for number in [0, 7, 10, 99, 100, 1_700_000_000_123_456_789, u128::MAX] {
        assert_eq!(decimal_text(number), number.to_string());
    }
}

#[test]
fn human_readable_sizes() {
    assert_eq!(parse_dir_size_limit("10MiB"), Ok(10 * 1024 * 1024));
    assert_eq!(parse_dir_size_limit("1.5GiB"), Ok(1_610_612_736));
    assert_eq!(parse_dir_size_limit("10000"), Ok(10000));
    assert_eq!(parse_dir_size_limit("8 KB"), Ok(8000));
    assert_eq!(parse_dir_size_limit("0"), Ok(0));
    assert_eq!(parse_dir_size_limit("123kib"), Ok(123 * 1024));
}

#[test]
fn sizes_in_whole_units() {
    let units: [(&str, usize); 8] = [
        ("", 1),
        ("B", 1),
        ("KB", 1_000),
        ("MB", 1_000_000),
        ("GB", 1_000_000_000),
        ("KiB", 1 << 10),
        ("MiB", 1 << 20),
        ("GiB", 1 << 30),
    ];
    for (unit, bytes) in units {
        let largest = usize::MAX / bytes;
        for count in [0, 1, 9, 10, 1234567890, largest] {
            assert_eq!(parse_dir_size_limit(&format!("{count}{unit}")), Ok(count * bytes));
            assert_eq!(parse_dir_size_limit(&format!("{count} {unit}")), Ok(count * bytes));
        }
    }
}

#[test]
fn letter_case_makes_no_difference_to_a_size() {
    for (value, bytes) in [("10MiB", 10 << 20), ("8 KB", 8000), ("80B", 80), ("16 Mbit", 2_000_000)] {
        for written in [value.to_string(), value.to_lowercase(), value.to_uppercase()] {
            assert_eq!(parse_dir_size_limit(&written), Ok(bytes));
        }
    }
    for value in ["10X", "ABC", "1KBX", "", "1.MB"] {
        assert!(parse_dir_size_limit(value).is_err());
        assert!(parse_dir_size_limit(&value.to_lowercase()).is_err());
    }
}

#[test]
fn sizes_with_a_fraction_are_rounded_up() {
    assert_eq!(parse_dir_size_limit("2.50 MB"), Ok(2_500_000));
    assert_eq!(parse_dir_size_limit("0.5"), Ok(1));
    assert_eq!(parse_dir_size_limit("0.0001KiB"), Ok(1));
    assert_eq!(parse_dir_size_limit("0.000 GiB"), Ok(0));
    assert_eq!(parse_dir_size_limit("7.000000000000000001B"), Ok(8));
    assert_eq!(parse_dir_size_limit("1.0000000001GiB"), Ok(1_073_741_825));
    assert_eq!(parse_dir_size_limit("0.000000000000000001"), Ok(1));
    assert_eq!(parse_dir_size_limit("18446744.073709551615"), Ok(18_446_745));
}

#[test]
fn text_that_is_no_size() {
    assert_eq!(
        parse_dir_size_limit("abc"),
        Err("invalid size 'abc': the character 'a' is not a number".to_string())
    );
    assert_eq!(
        parse_dir_size_limit(""),
        Err("invalid size '': no value can be found".to_string())
    );
    assert!(parse_dir_size_limit("10X").unwrap_err().starts_with("invalid size '10X': "));
    assert!(parse_dir_size_limit("99999999999999999999").is_err());
}

#[test]
fn limit_from_a_parsed_size() {
    assert_eq!(limit_from_parsed("x", Ok(Some(42))), Ok(42));
    assert_eq!(
        limit_from_parsed("1ZB", Ok(None)),
        Err("size limit '1ZB' exceeds usize maximum".to_string())
    );
    assert_eq!(
        limit_from_parsed("x", Err("bad".to_string())),
        Err("invalid size 'x': bad".to_string())
    );
}

#[test]
fn mode_from_the_command_line() {
    let dir = || Some("/var/events".to_string());
    assert!(matches!(select_mode(true, dir(), Some(1)), Ok(ExporterMode::Disabled)));
    assert!(matches!(select_mode(true, None, None), Ok(ExporterMode::Disabled)));
    match select_mode(false, dir(), Some(4096)) {
        Ok(ExporterMode::File { dir, size_limit }) => {
            assert_eq!(dir, "/var/events");
            assert_eq!(size_limit, 4096);
        }
        other => panic!("unexpected {other:?}"),
    }
    let missing_dir = select_mode(false, None, None).unwrap_err();
    assert_eq!(missing_dir, ModeError::MissingEventsDir);
    assert_eq!(
        missing_dir.message(),
        "--events-dir is required when --loki-enabled is false"
    );
    let missing_limit = select_mode(false, dir(), None).unwrap_err();
    assert_eq!(missing_limit, ModeError::MissingDirSizeLimit);
    assert_eq!(
        missing_limit.message(),
        "--dir-size-limit is required when --loki-enabled is false"
    );
}

#[test]
fn destination_names() {
    let loki = ExporterMode::Loki { url: "http://loki".to_string() };
    let file = ExporterMode::File { dir: "d".to_string(), size_limit: 1 };
    assert_eq!(loki.destination(), "loki");
    assert_eq!(file.destination(), "file");
    assert_eq!(ExporterMode::Disabled.destination(), "disabled");
}
