use slf::query::Query;

fn query(
    begin: Option<&str>,
    end: Option<&str>,
    tag: Option<&[&str]>,
    recent: Option<u64>,
    limit: Option<u64>,
) -> Query {
    Query {
        begin: begin.map(|s| s.to_string()),
        end: end.map(|s| s.to_string()),
        tag: tag.map(|ts| ts.iter().map(|t| t.to_string()).collect()),
        recent,
        limit,
    }
}

fn run(q: &Query, lines: &[&str], recent_bound: Option<&str>) -> Vec<String> {
    let lines: Vec<String> = lines.iter().map(|l| l.to_string()).collect();
    q.run(&lines, recent_bound)
}

#[test]
fn begin_keeps_lines_at_or_above_the_bound() {
    let q = query(Some("2024-01-15 00:00"), None, None, None, None);
    let lines = ["2024-02-01 00:00: b", "2024-01-01 00:00: a"];
    assert_eq!(run(&q, &lines, None), vec!["2024-02-01 00:00: b".to_string()]);
}

#[test]
fn begin_is_inclusive() {
    let q = query(Some("2024-01-15 00:00: x"), None, None, None, None);
    assert_eq!(q.query_map("2024-01-15 00:00: x", None), Some("2024-01-15 00:00: x"));
    assert_eq!(q.query_map("2024-01-14 23:59: y", None), None);
}

#[test]
fn end_is_exclusive() {
    let q = query(None, Some("2024-01-15 00:00"), None, None, None);
    assert_eq!(q.query_map("2024-01-15 00:00", None), None);
    assert_eq!(q.query_map("2024-01-14 23:59: y", None), Some("2024-01-14 23:59: y"));
    assert_eq!(q.query_map("2024-01-15 00:01: z", None), None);
}

#[test]
fn tag_filter_requires_every_tag() {
    let line = "2024-01-01 00:00: meeting #work #urgent";
    let with_work = query(None, None, Some(&["work"]), None, None);
    assert_eq!(run(&with_work, &[line], None), vec![line.to_string()]);
    let with_play = query(None, None, Some(&["play"]), None, None);
    assert_eq!(run(&with_play, &[line], None), Vec::<String>::new());
    let both = query(None, None, Some(&["work", "urgent"]), None, None);
    assert_eq!(run(&both, &[line], None), vec![line.to_string()]);
    let one_missing = query(None, None, Some(&["work", "play"]), None, None);
    assert_eq!(run(&one_missing, &[line], None), Vec::<String>::new());
}

#[test]
fn tag_match_is_a_substring_search() {
    // A documented limitation: the filter `work` also matches `#workshop`.
    let q = query(None, None, Some(&["work"]), None, None);
    assert_eq!(q.query_map("2024-01-01 00:00: at the #workshop", None), Some(
        "2024-01-01 00:00: at the #workshop",
    ));
    // The bare word without `#` does not match.
    assert_eq!(q.query_map("2024-01-01 00:00: work without a tag", None), None);
}

#[test]
fn filters_combine_conjunctively() {
    let q = query(
        Some("2024-01-01 00:00"),
        Some("2024-02-01 00:00"),
        Some(&["work"]),
        None,
        None,
    );
    assert!(q.query_map("2024-01-15 00:00: a #work", None).is_some());
    assert!(q.query_map("2023-12-31 00:00: a #work", None).is_none()); // before begin
    assert!(q.query_map("2024-02-01 00:00: a #work", None).is_none()); // at end
    assert!(q.query_map("2024-01-15 00:00: a #play", None).is_none()); // missing tag
}

#[test]
fn recent_bound_is_an_inclusive_lower_bound() {
    let q = query(None, None, None, Some(3), None);
    let bound = Some("2024-01-12");
    assert!(q.query_map("2024-01-12 00:00: kept", bound).is_some());
    assert!(q.query_map("2024-01-11 23:59: gone", bound).is_none());
}

#[test]
fn recent_bound_combines_with_explicit_begin() {
    let q = query(Some("2024-01-14 00:00"), None, None, Some(3), None);
    let bound = Some("2024-01-12");
    // Passes the recency bound but not the explicit begin: rejected.
    assert!(q.query_map("2024-01-13 00:00: x", bound).is_none());
    assert!(q.query_map("2024-01-14 12:00: y", bound).is_some());
}

#[test]
fn limit_returns_the_first_matching_line() {
    let lines = [
        "2024-01-05 00:00: e",
        "2024-01-04 00:00: d",
        "2024-01-03 00:00: c",
        "2024-01-02 00:00: b",
        "2024-01-01 00:00: a",
    ];
    let q = query(None, None, None, None, Some(1));
    assert_eq!(run(&q, &lines, None), vec!["2024-01-05 00:00: e".to_string()]);
}

#[test]
fn limit_emits_a_prefix_of_the_unlimited_results() {
    let lines = [
        "2024-01-05 00:00: e",
        "2024-01-04 00:00: d #x",
        "2024-01-03 00:00: c",
        "2024-01-02 00:00: b #x",
        "2024-01-01 00:00: a #x",
    ];
    let tagged = query(None, None, Some(&["x"]), None, None);
    let unlimited = run(&tagged, &lines, None);
    assert_eq!(unlimited, vec![
        "2024-01-04 00:00: d #x".to_string(),
        "2024-01-02 00:00: b #x".to_string(),
        "2024-01-01 00:00: a #x".to_string(),
    ]);
    let capped = query(None, None, Some(&["x"]), None, Some(2));
    assert_eq!(run(&capped, &lines, None), unlimited[..2].to_vec());
}

#[test]
fn limit_zero_emits_nothing() {
    let q = query(None, None, None, None, Some(0));
    let lines = ["2024-01-01 00:00: a"];
    assert_eq!(run(&q, &lines, None), Vec::<String>::new());
}

#[test]
fn limit_larger_than_the_matches_emits_them_all() {
    let q = query(None, None, None, None, Some(10));
    let lines = ["2024-01-02 00:00: b", "2024-01-01 00:00: a"];
    assert_eq!(run(&q, &lines, None), vec![
        "2024-01-02 00:00: b".to_string(),
        "2024-01-01 00:00: a".to_string(),
    ]);
}

#[test]
fn no_filters_keeps_every_line_in_file_order() {
    let q = query(None, None, None, None, None);
    let lines = ["2024-01-02 00:00: b", "2024-01-01 00:00: a"];
    assert_eq!(run(&q, &lines, None), vec![
        "2024-01-02 00:00: b".to_string(),
        "2024-01-01 00:00: a".to_string(),
    ]);
}

#[test]
fn recent_date_is_none_without_a_recency_filter() {
    let q = query(None, None, None, None, None);
    assert_eq!(q.recent_date(), Ok(None));
}

#[test]
fn recent_date_fails_on_a_day_count_out_of_range() {
    let q = query(None, None, None, Some(u64::MAX), None);
    let r = q.recent_date();
    assert_eq!(r, Err(slf::query::QueryError::RecentBoundUnavailable));
    assert_eq!(r.unwrap_err().message(), "computing the recency bound failed");
}

#[test]
fn recent_date_renders_a_zero_padded_date() {
    let q = query(None, None, None, Some(1), None);
    let bound = q
        .recent_date()
        .expect("a recency bound of one day is computable")
        .expect("a recency filter is set");
    let bytes = bound.as_bytes();
    assert_eq!(bytes.len(), 10);
    assert_eq!(bytes[4], b'-');
    assert_eq!(bytes[7], b'-');
    assert!(bytes.iter().enumerate().all(|(i, b)| {
        if i == 4 || i == 7 { *b == b'-' } else { b.is_ascii_digit() }
    }));
}

#[test]
fn has_tag_looks_for_the_hash_prefix() {
    assert!(slf::query::has_tag("note #work now", "work"));
    assert!(!slf::query::has_tag("note work now", "work"));
    assert!(!slf::query::has_tag("", "work"));
    assert!(slf::query::has_tag("#a", "a"));
}
