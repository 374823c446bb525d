use s3_event_bridge::app::App;
use s3_event_bridge::batch::{derive_prefix, EventBatch, Notification};
use s3_event_bridge::conf::{
    default_bucket_var, default_key_prefix_var, default_root_folder_var, filter_source,
    ConfigError, FilterSource, Settings,
};
use s3_event_bridge::jq::{should_skip, FilterOutcome};
use s3_event_bridge::pattern::KeyPattern;
use s3_event_bridge::pipeline::{Outcome, Phase, Pipeline};
use s3_event_bridge::queue::{
    decide_after_delete, decide_tick, fail_delay, ConsumerState, TickDecision,
};
use s3_event_bridge::sign::{
    compute_signatures, empty_signatures, find_signature_differences, hash_content, FileEntry,
};
use s3_event_bridge::store::{upload_key, ObjectRecord, OwnerRecord};
use s3_event_bridge::trigger::Trigger;

fn settings_with(
    match_key: Option<&str>,
    pull_parent_dirs: i32,
    pull_match_keys: Vec<&str>,
    target_bucket: Option<&str>,
) -> Settings {
    Settings {
        match_key: match_key.map(String::from),
        pull_parent_dirs,
        pull_match_keys: pull_match_keys.into_iter().map(String::from).collect(),
        execution_filter_expr: None,
        execution_filter_file: None,
        target_bucket: target_bucket.map(String::from),
        root_folder_var: default_root_folder_var(),
        bucket_var: default_bucket_var(),
        key_prefix_var: default_key_prefix_var(),
    }
}

fn notification(bucket: Option<&str>, key: Option<&str>) -> Notification {
    Notification {
        bucket_name: bucket.map(String::from),
        object_key: key.map(String::from),
    }
}

fn object_with_key(key: &str) -> ObjectRecord {
    ObjectRecord {
        checksum_algorithm: None,
        e_tag: None,
        key: Some(String::from(key)),
        last_modified: None,
        owner: None,
        size: 1,
        storage_class: None,
    }
}

fn file(path: &str, data: &[u8]) -> FileEntry {
    FileEntry {
        path: String::from(path),
        data: data.to_vec(),
    }
}

fn handler_command() -> Vec<String> {
    vec![String::from("handler"), String::from("--run")]
}

// Key pattern matching

#[test]
fn pattern_star_does_not_cross_separator() {
    let p = KeyPattern::compile("2024/*");
    assert!(p.matches("2024/a.csv"));
    assert!(p.matches("2024/"));
    assert!(!p.matches("2024/sub/a.csv"));
    assert!(!p.matches("2023/a.csv"));
}

#[test]
fn pattern_is_anchored_on_both_ends() {
    let p = KeyPattern::compile("*.txt");
    assert!(p.matches("a.txt"));
    assert!(!p.matches("a.txt.bak"));
    assert!(!p.matches("dir/a.txt"));
    let q = KeyPattern::compile("data");
    assert!(q.matches("data"));
    assert!(!q.matches("data2"));
    assert!(!q.matches("xdata"));
}

#[test]
fn empty_pattern_matches_only_the_empty_key() {
    let p = KeyPattern::compile("");
    assert!(p.matches(""));
    assert!(!p.matches("a"));
}

#[test]
fn pattern_with_several_stars() {
    let p = KeyPattern::compile("in/*-v*.csv");
    assert!(p.matches("in/report-v2.csv"));
    assert!(p.matches("in/-v.csv"));
    assert!(!p.matches("in/report-v2.json"));
    assert!(!p.matches("in/a/b-v2.csv"));
}

// Prefix derivation

#[test]
fn prefix_of_zero_depth_keeps_the_parent_directory() {
    assert_eq!(derive_prefix("a/b/c.txt", 0), "a/b/");
}

#[test]
fn negative_depth_pulls_the_whole_bucket() {
    assert_eq!(derive_prefix("a/b/c.txt", -1), "");
    assert_eq!(derive_prefix("deep/very/deep/key.bin", -1), "");
    assert_eq!(derive_prefix("c.txt", -7), "");
}

#[test]
fn prefix_depth_walks_up_the_tree() {
    assert_eq!(derive_prefix("a/b/c/d.txt", 1), "a/b/");
    assert_eq!(derive_prefix("a/b/c/d.txt", 2), "a/");
    assert_eq!(derive_prefix("a/b/c/d.txt", 3), "");
    assert_eq!(derive_prefix("a/b/c/d.txt", 9), "");
    assert_eq!(derive_prefix("top.txt", 0), "");
}

// Event batching

#[test]
fn batching_deduplicates_and_sorts() {
    let app = App::new(settings_with(None, 0, vec![], None), handler_command(), None)
        .expect("app builds");
    let records = vec![
        notification(Some("zeta"), Some("x/1.csv")),
        notification(Some("alpha"), Some("x/2.csv")),
        notification(Some("alpha"), Some("x/3.csv")),
        notification(Some("alpha"), Some("y/1.csv")),
    ];
    let units = app.batch_events(&records);
    let pairs: Vec<(&str, &str)> = units
        .iter()
        .map(|u| (u.bucket.as_str(), u.prefix.as_str()))
        .collect();
    assert_eq!(
        pairs,
        vec![("alpha", "x/"), ("alpha", "y/"), ("zeta", "x/")]
    );
}

#[test]
fn batching_drops_malformed_and_unmatched_notifications() {
    let app = App::new(
        settings_with(Some("*.csv"), 0, vec![], None),
        handler_command(),
        None,
    )
    .expect("app builds");
    let records = vec![
        notification(Some("data"), None),
        notification(None, Some("a.csv")),
        notification(Some("data"), Some("a.json")),
        notification(Some("data"), Some("a.csv")),
    ];
    let units = app.batch_events(&records);
    assert_eq!(units.len(), 1);
    assert_eq!(units[0].bucket, "data");
    assert_eq!(units[0].prefix, "");
}

#[test]
fn batching_twice_yields_the_same_units() {
    let app = App::new(settings_with(None, 0, vec![], None), handler_command(), None)
        .expect("app builds");
    let records = vec![
        notification(Some("b"), Some("p/k1")),
        notification(Some("a"), Some("q/k2")),
        notification(Some("b"), Some("p/k3")),
    ];
    let once = app.batch_events(&records);
    let twice = app.batch_events(&records);
    assert_eq!(once.len(), twice.len());
    for (u, v) in once.iter().zip(twice.iter()) {
        assert_eq!(u.bucket, v.bucket);
        assert_eq!(u.prefix, v.prefix);
    }
}

#[test]
fn batching_an_empty_set_yields_no_units() {
    let app = App::new(settings_with(None, 0, vec![], None), handler_command(), None)
        .expect("app builds");
    assert!(app.batch_events(&Vec::new()).is_empty());
}

// Content snapshots

#[test]
fn hash_content_has_known_values() {
    assert_eq!(hash_content(&Vec::new()), "2jmj7l5rSw0yVb/vlWAYkK/YBwk=");
    assert_eq!(hash_content(&b"abc".to_vec()), "qZk+NkcGgWq6PiVxeFDCbJzQ2J0=");
}

#[test]
fn snapshot_round_trip_shows_no_differences() {
    let files = vec![file("a.csv", b"one"), file("sub/b.csv", b"two")];
    let snapshot = compute_signatures(&files);
    let diff = find_signature_differences(&files, &snapshot);
    assert!(diff.is_empty());
}

#[test]
fn diff_reports_exactly_the_added_file() {
    let files = vec![file("a.csv", b"one"), file("b.csv", b"two")];
    let snapshot = compute_signatures(&files);
    let mut later = files;
    later.push(file("c.csv", b"three"));
    let diff = find_signature_differences(&later, &snapshot);
    assert_eq!(diff, vec![String::from("c.csv")]);
}

#[test]
fn diff_reports_modified_files() {
    let files = vec![file("a.csv", b"one"), file("b.csv", b"two")];
    let snapshot = compute_signatures(&files);
    let later = vec![file("a.csv", b"changed"), file("b.csv", b"two")];
    let diff = find_signature_differences(&later, &snapshot);
    assert_eq!(diff, vec![String::from("a.csv")]);
}

#[test]
fn empty_snapshot_differs_from_every_file() {
    let snapshot = empty_signatures();
    let files = vec![file("a.csv", b"one"), file("b.csv", b"two")];
    let diff = find_signature_differences(&files, &snapshot);
    assert_eq!(diff, vec![String::from("a.csv"), String::from("b.csv")]);
}

#[test]
fn deleted_files_are_not_surfaced_by_diff() {
    let files = vec![file("a.csv", b"one"), file("b.csv", b"two")];
    let snapshot = compute_signatures(&files);
    let later = vec![file("b.csv", b"two")];
    let diff = find_signature_differences(&later, &snapshot);
    assert!(diff.is_empty());
}

// Configuration

#[test]
fn default_variable_names() {
    assert_eq!(default_root_folder_var(), "ROOT_FOLDER");
    assert_eq!(default_bucket_var(), "BUCKET");
    assert_eq!(default_key_prefix_var(), "KEY_PREFIX");
}

#[test]
fn conflicting_filter_sources_are_rejected() {
    let mut s = settings_with(None, 0, vec![], None);
    s.execution_filter_expr = Some(String::from(".x"));
    s.execution_filter_file = Some(String::from("/etc/filter.jq"));
    assert!(matches!(
        filter_source(&s),
        Err(ConfigError::ConflictingFilterSources)
    ));
}

#[test]
fn filter_source_resolves_each_form() {
    let mut s = settings_with(None, 0, vec![], None);
    assert!(matches!(filter_source(&s), Ok(None)));
    s.execution_filter_expr = Some(String::from(""));
    assert!(matches!(filter_source(&s), Ok(None)));
    s.execution_filter_expr = Some(String::from("false"));
    match filter_source(&s) {
        Ok(Some(FilterSource::Inline(e))) => assert_eq!(e, "false"),
        other => panic!("unexpected source: {:?}", other.is_ok()),
    }
    s.execution_filter_expr = None;
    s.execution_filter_file = Some(String::from("f.jq"));
    match filter_source(&s) {
        Ok(Some(FilterSource::FromFile(f))) => assert_eq!(f, "f.jq"),
        other => panic!("unexpected source: {:?}", other.is_ok()),
    }
}

#[test]
fn empty_handler_command_is_rejected() {
    let r = App::new(settings_with(None, 0, vec![], None), Vec::new(), None);
    assert!(matches!(r, Err(ConfigError::EmptyHandlerCommand)));
}

#[test]
fn bad_filter_expression_is_rejected() {
    let r = App::new(
        settings_with(None, 0, vec![], None),
        handler_command(),
        Some(String::from(".x | | |")),
    );
    assert!(matches!(r, Err(ConfigError::FilterCompile(_))));
}

// The execution filter, end to end through jaq

#[test]
fn filter_false_first_result_skips() {
    let app = App::new(
        settings_with(None, 0, vec![], None),
        handler_command(),
        Some(String::from("false")),
    )
    .expect("filter compiles");
    let objects = vec![object_with_key("2024/a.csv")];
    let outcome = app
        .evaluate_execution_filter(&objects)
        .expect("evaluation runs");
    assert!(matches!(outcome, FilterOutcome::FirstValue { is_false: true }));
    assert!(should_skip(&outcome));
}

#[test]
fn filter_true_result_proceeds() {
    let app = App::new(
        settings_with(None, 0, vec![], None),
        handler_command(),
        Some(String::from("true")),
    )
    .expect("filter compiles");
    let outcome = app
        .evaluate_execution_filter(&vec![object_with_key("k")])
        .expect("evaluation runs");
    assert!(matches!(outcome, FilterOutcome::FirstValue { is_false: false }));
    assert!(!should_skip(&outcome));
}

#[test]
fn filter_reads_the_serialized_listing() {
    let app = App::new(
        settings_with(None, 0, vec![], None),
        handler_command(),
        Some(String::from("[.[] | .Size] | add >= 3")),
    )
    .expect("filter compiles");
    let objects = vec![object_with_key("a"), object_with_key("b")];
    // sizes are 1 each: 2 >= 3 is false, so the unit is skipped
    let outcome = app
        .evaluate_execution_filter(&objects)
        .expect("evaluation runs");
    assert!(should_skip(&outcome));
}

#[test]
fn filter_without_result_proceeds() {
    let app = App::new(
        settings_with(None, 0, vec![], None),
        handler_command(),
        Some(String::from("empty")),
    )
    .expect("filter compiles");
    let outcome = app
        .evaluate_execution_filter(&vec![object_with_key("k")])
        .expect("evaluation runs");
    assert!(matches!(outcome, FilterOutcome::NoResult));
    assert!(!should_skip(&outcome));
}

#[test]
fn no_filter_configured_proceeds() {
    let app = App::new(settings_with(None, 0, vec![], None), handler_command(), None)
        .expect("app builds");
    let outcome = app
        .evaluate_execution_filter(&vec![object_with_key("k")])
        .expect("evaluation runs");
    assert!(matches!(outcome, FilterOutcome::NoFilter));
    assert!(!should_skip(&outcome));
}

// The serialized listing itself

#[test]
fn listing_serializes_as_the_store_describes_objects() {
    let objects = vec![ObjectRecord {
        checksum_algorithm: Some(vec![String::from("SHA256")]),
        e_tag: Some(String::from("\"abc123\"")),
        key: Some(String::from("weird\nkey\t\"quoted\"\\end")),
        last_modified: Some(String::from("2024-05-06T07:08:09Z")),
        owner: Some(OwnerRecord {
            display_name: Some(String::from("own\u{1}er")),
            id: None,
        }),
        size: -42,
        storage_class: Some(String::from("STANDARD")),
    }];
    let batch = EventBatch {
        bucket: String::from("data"),
        prefix: String::from("p/"),
    };
    let mut p = Pipeline::new(&batch, &None);
    p.absorb_page(objects, false);
    let doc = p.filter_input();
    let parsed: serde_json::Value = serde_json::from_str(&doc).expect("valid JSON");
    let obj = &parsed[0];
    assert_eq!(obj["ChecksumAlgorithm"][0], serde_json::Value::String(String::from("SHA256")));
    assert_eq!(obj["ETag"], serde_json::Value::String(String::from("\"abc123\"")));
    assert_eq!(
        obj["Key"],
        serde_json::Value::String(String::from("weird\nkey\t\"quoted\"\\end"))
    );
    assert_eq!(
        obj["LastModified"],
        serde_json::Value::String(String::from("2024-05-06T07:08:09Z"))
    );
    assert_eq!(
        obj["Owner"]["DisplayName"],
        serde_json::Value::String(String::from("own\u{1}er"))
    );
    assert!(obj["Owner"].get("ID").is_none());
    assert_eq!(obj["Size"], serde_json::Value::from(-42i64));
    assert_eq!(obj["StorageClass"], serde_json::Value::String(String::from("STANDARD")));
}

#[test]
fn absent_fields_are_omitted_from_the_listing() {
    let batch = EventBatch {
        bucket: String::from("data"),
        prefix: String::from(""),
    };
    let mut p = Pipeline::new(&batch, &None);
    p.absorb_page(vec![object_with_key("k"), ObjectRecord {
        checksum_algorithm: None,
        e_tag: None,
        key: None,
        last_modified: None,
        owner: None,
        size: 7,
        storage_class: None,
    }], false);
    let doc = p.filter_input();
    let parsed: serde_json::Value = serde_json::from_str(&doc).expect("valid JSON");
    assert_eq!(parsed.as_array().map(|a| a.len()), Some(2));
    assert!(parsed[1].get("Key").is_none());
    assert_eq!(parsed[1]["Size"], serde_json::Value::from(7i64));
}

// The pipeline phase machine

#[test]
fn pipeline_full_run_uploads_only_the_changed_file() {
    let batch = EventBatch {
        bucket: String::from("data"),
        prefix: String::from("2024/"),
    };
    let settings = settings_with(None, 0, vec!["2024/*"], None);
    let pats = vec![KeyPattern::compile("2024/*")];
    let mut p = Pipeline::new(&batch, &None);
    assert_eq!(p.phase, Phase::Listing);
    assert_eq!(p.target_bucket, "data");

    p.absorb_page(vec![object_with_key("2024/a.csv"), object_with_key("2024/b.csv")], false);
    assert_eq!(p.phase, Phase::Filtering);

    p.apply_filter(&FilterOutcome::NoFilter);
    assert_eq!(p.phase, Phase::Downloading);

    let plan = p.download_plan(&pats);
    let planned: Vec<(&str, &str)> = plan
        .iter()
        .map(|it| (it.key.as_str(), it.relative_path.as_str()))
        .collect();
    assert_eq!(
        planned,
        vec![("2024/a.csv", "a.csv"), ("2024/b.csv", "b.csv")]
    );
    p.downloads_done();

    assert!(p.needs_pre_snapshot());
    let walk = vec![file("a.csv", b"one"), file("b.csv", b"two")];
    p.record_snapshot(&walk);
    assert_eq!(p.phase, Phase::Executing);

    let env = p.handler_env(&settings, "/work/unit");
    assert_eq!(env.len(), 3);
    assert_eq!(env[0], (String::from("ROOT_FOLDER"), String::from("/work/unit")));
    assert_eq!(env[1], (String::from("BUCKET"), String::from("data")));
    assert_eq!(env[2], (String::from("KEY_PREFIX"), String::from("2024/")));

    p.handler_finished(true);
    assert_eq!(p.phase, Phase::Diffing);

    let walk_after = vec![file("a.csv", b"one, modified"), file("b.csv", b"two")];
    let changed = p.diff_changed(&walk_after);
    assert_eq!(changed, vec![String::from("a.csv")]);

    let uploads = p.upload_plan(&changed);
    assert_eq!(uploads.len(), 1);
    assert_eq!(uploads[0].relative_path, "a.csv");
    assert_eq!(uploads[0].key, "2024/a.csv");

    p.uploads_done();
    assert_eq!(p.phase, Phase::Done);
    assert_eq!(p.outcome, Some(Outcome::Completed));
}

#[test]
fn pipeline_skips_on_filter_false() {
    let batch = EventBatch {
        bucket: String::from("data"),
        prefix: String::from("2024/"),
    };
    let mut p = Pipeline::new(&batch, &None);
    p.absorb_page(vec![object_with_key("2024/a.csv")], false);
    p.apply_filter(&FilterOutcome::FirstValue { is_false: true });
    assert_eq!(p.phase, Phase::Done);
    assert_eq!(p.outcome, Some(Outcome::FilteredOut));
}

#[test]
fn pipeline_stops_without_upload_when_handler_declines() {
    let batch = EventBatch {
        bucket: String::from("data"),
        prefix: String::from("in/"),
    };
    let mut p = Pipeline::new(&batch, &None);
    p.absorb_page(vec![object_with_key("in/a.csv")], false);
    p.apply_filter(&FilterOutcome::NoFilter);
    p.downloads_done();
    p.record_snapshot(&vec![file("a.csv", b"one")]);
    // the handler modified the working directory, then exited with status 1
    p.handler_finished(false);
    assert_eq!(p.phase, Phase::Done);
    assert_eq!(p.outcome, Some(Outcome::HandlerDeclined));
}

#[test]
fn pipeline_pages_through_the_listing() {
    let batch = EventBatch {
        bucket: String::from("data"),
        prefix: String::from(""),
    };
    let mut p = Pipeline::new(&batch, &None);
    p.absorb_page(vec![object_with_key("a")], true);
    assert_eq!(p.phase, Phase::Listing);
    p.absorb_page(vec![object_with_key("b")], false);
    assert_eq!(p.phase, Phase::Filtering);
    assert_eq!(p.objects.len(), 2);
}

#[test]
fn pipeline_with_target_override_skips_the_snapshot() {
    let batch = EventBatch {
        bucket: String::from("data"),
        prefix: String::from(""),
    };
    let mut p = Pipeline::new(&batch, &Some(String::from("results")));
    assert_eq!(p.target_bucket, "results");
    p.absorb_page(vec![object_with_key("a.csv")], false);
    p.apply_filter(&FilterOutcome::NoFilter);
    p.downloads_done();
    assert!(!p.needs_pre_snapshot());
    // every file of the working directory then counts as changed
    p.record_snapshot(&Vec::new());
    p.handler_finished(true);
    let changed = p.diff_changed(&vec![file("a.csv", b"same as before")]);
    assert_eq!(changed, vec![String::from("a.csv")]);
}

// Upload keys

#[test]
fn upload_keys_rejoin_the_prefix() {
    assert_eq!(upload_key("2024/", "a.csv"), "2024/a.csv");
    assert_eq!(upload_key("2024", "a.csv"), "2024/a.csv");
    assert_eq!(upload_key("", "a.csv"), "a.csv");
    assert_eq!(upload_key("a/b/", "c/d.txt"), "a/b/c/d.txt");
}

// The queue consumption loop's decisions

#[test]
fn tick_deletes_all_messages_when_all_units_succeed() {
    // three messages polled, two parse into units of work, both
    // succeed: every message is deleted, the unparseable one too
    assert_eq!(decide_tick(false, 3, false), TickDecision::DeleteThenComplete);
}

#[test]
fn tick_keeps_messages_when_a_unit_fails() {
    assert_eq!(decide_tick(false, 3, true), TickDecision::CompleteWithoutDelete);
}

#[test]
fn tick_with_no_messages_completes_without_delete() {
    assert_eq!(decide_tick(false, 0, false), TickDecision::CompleteWithoutDelete);
}

#[test]
fn tick_backs_off_on_poll_error() {
    assert_eq!(decide_tick(true, 0, false), TickDecision::Backoff);
}

#[test]
fn delete_failure_backs_off_but_partial_failure_completes() {
    assert_eq!(decide_after_delete(true), TickDecision::Backoff);
    assert_eq!(decide_after_delete(false), TickDecision::CompleteWithoutDelete);
}

#[test]
fn backoff_delay_doubles_and_caps() {
    assert_eq!(fail_delay(0), 300);
    assert_eq!(fail_delay(1), 600);
    assert_eq!(fail_delay(2), 1200);
    assert_eq!(fail_delay(11), 614400);
    assert_eq!(fail_delay(12), 1200000);
    assert_eq!(fail_delay(30), 1200000);
    assert_eq!(fail_delay(u32::MAX), 1200000);
}

#[test]
fn consumer_state_counts_failures_and_resets() {
    let mut st = ConsumerState::new();
    assert_eq!(st.fail(), 300);
    assert_eq!(st.fail(), 600);
    assert_eq!(st.fail(), 1200);
    assert_eq!(st.backoff, 3);
    assert_eq!(st.pass(), 300);
    assert_eq!(st.backoff, 0);
    assert_eq!(st.fail(), 300);
}

// Text round trips

#[test]
fn chars_round_trip_through_strings() {
    let cs = s3_event_bridge::chars_of("héllo/wörld *");
    assert_eq!(s3_event_bridge::string_of(&cs), "héllo/wörld *");
    let empty = s3_event_bridge::chars_of("");
    assert_eq!(s3_event_bridge::string_of(&empty), "");
}

// Triggers

#[test]
fn triggers_carry_nothing_yet() {
    let records = vec![notification(Some("b"), Some("k"))];
    let triggers: Vec<Trigger> = Trigger::from(&records);
    assert!(triggers.is_empty());
}
