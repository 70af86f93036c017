use ccline::context_window::{
    accumulate_cache_in_file, context_primary, find_assistant_message_by_uuid,
    find_usage_by_leaf_uuid, history_needed, pick_with_history, recency_order, same_text, search_uuid_in_file, token_count_text,
    try_parse_transcript_file, ContextWindowSegment, EntryKind, TranscriptEntry,
    TranscriptLookup, UsageFigures,
};
use ccline::segment::SegmentId;

fn figures(display: u32, input: u32, creation: u32, read: u32) -> UsageFigures {
    UsageFigures {
        display_tokens: display,
        input_tokens: input,
        cache_creation_input_tokens: creation,
        cache_read_input_tokens: read,
    }
}

fn entry(
    kind: EntryKind,
    uuid: Option<&str>,
    parent: Option<&str>,
    usage: Option<UsageFigures>,
) -> Option<TranscriptEntry> {
    Some(TranscriptEntry {
        kind,
        uuid: uuid.map(|s| s.to_string()),
        parent_uuid: parent.map(|s| s.to_string()),
        leaf_uuid: None,
        usage,
    })
}

fn summary(leaf: Option<&str>) -> Option<TranscriptEntry> {
    Some(TranscriptEntry {
        kind: EntryKind::Summary,
        uuid: None,
        parent_uuid: None,
        leaf_uuid: leaf.map(|s| s.to_string()),
        usage: None,
    })
}

fn found(r: TranscriptLookup) -> Option<UsageFigures> {
    match r {
        TranscriptLookup::Found(u) => Some(u),
        _ => None,
    }
}

#[test]
fn context_segment_identity() {
    let s = ContextWindowSegment::new();
    assert_eq!(s.id(), SegmentId::ContextWindow);
}

#[test]
fn entry_kind_from_type_field() {
    assert_eq!(EntryKind::from_type(Some("assistant")), EntryKind::Assistant);
    assert_eq!(EntryKind::from_type(Some("user")), EntryKind::User);
    assert_eq!(EntryKind::from_type(Some("summary")), EntryKind::Summary);
    assert_eq!(EntryKind::from_type(Some("system")), EntryKind::Other);
    assert_eq!(EntryKind::from_type(Some("Assistant")), EntryKind::Other);
    assert_eq!(EntryKind::from_type(None), EntryKind::Other);
    assert!(same_text("abc", "abc"));
    assert!(!same_text("abc", "abd"));
    assert!(!same_text("ab", "abc"));
}

#[test]
fn latest_assistant_turn_wins() {
    let lines = vec![
        entry(EntryKind::Assistant, Some("a1"), None, Some(figures(100, 1, 2, 3))),
        entry(EntryKind::User, Some("u1"), Some("a1"), None),
        entry(EntryKind::Assistant, Some("a2"), None, Some(figures(200, 4, 5, 6))),
        entry(EntryKind::Assistant, Some("a3"), None, None),
        None,
        entry(EntryKind::User, Some("u2"), Some("a3"), None),
    ];
    assert_eq!(found(try_parse_transcript_file(&lines)), Some(figures(200, 4, 5, 6)));
}

#[test]
fn empty_transcript_has_no_usage() {
    let lines: Vec<Option<TranscriptEntry>> = vec![];
    assert!(matches!(try_parse_transcript_file(&lines), TranscriptLookup::Missing));
    let lines = vec![None, entry(EntryKind::User, Some("u"), None, None)];
    assert!(matches!(try_parse_transcript_file(&lines), TranscriptLookup::Missing));
}

#[test]
fn summary_at_end_points_to_leaf() {
    let lines = vec![
        entry(EntryKind::Assistant, Some("a1"), None, Some(figures(100, 1, 2, 3))),
        summary(Some("leaf-1")),
    ];
    match try_parse_transcript_file(&lines) {
        TranscriptLookup::FollowLeaf(leaf) => assert_eq!(leaf, "leaf-1"),
        other => panic!("unexpected {:?}", other),
    }
    // A summary without a leaf is an ordinary line.
    let lines = vec![
        entry(EntryKind::Assistant, Some("a1"), None, Some(figures(100, 1, 2, 3))),
        summary(None),
    ];
    assert_eq!(found(try_parse_transcript_file(&lines)), Some(figures(100, 1, 2, 3)));
    // A summary that is not the last line is ignored.
    let lines = vec![
        summary(Some("leaf-1")),
        entry(EntryKind::Assistant, Some("a1"), None, Some(figures(7, 0, 0, 0))),
    ];
    assert_eq!(found(try_parse_transcript_file(&lines)), Some(figures(7, 0, 0, 0)));
}

#[test]
fn uuid_search_assistant_and_user() {
    let lines = vec![
        entry(EntryKind::Assistant, Some("a1"), None, Some(figures(10, 1, 1, 1))),
        entry(EntryKind::User, Some("u1"), Some("a1"), None),
        entry(EntryKind::User, Some("u2"), None, None),
        entry(EntryKind::Assistant, Some("a2"), None, None),
        entry(EntryKind::Other, Some("x"), None, Some(figures(99, 9, 9, 9))),
    ];
    let t = |s: &str| s.to_string();
    assert_eq!(search_uuid_in_file(&lines, &t("a1")), Some(figures(10, 1, 1, 1)));
    assert_eq!(search_uuid_in_file(&lines, &t("u1")), Some(figures(10, 1, 1, 1)));
    assert_eq!(search_uuid_in_file(&lines, &t("u2")), None);
    assert_eq!(search_uuid_in_file(&lines, &t("a2")), None);
    assert_eq!(search_uuid_in_file(&lines, &t("x")), None);
    assert_eq!(search_uuid_in_file(&lines, &t("nope")), None);
}

#[test]
fn first_line_with_uuid_decides() {
    // The first line with the uuid has no usage: the search stops there.
    let lines = vec![
        entry(EntryKind::Assistant, Some("a"), None, None),
        entry(EntryKind::Assistant, Some("a"), None, Some(figures(5, 1, 1, 1))),
    ];
    assert_eq!(search_uuid_in_file(&lines, &"a".to_string()), None);
    // Looking up the parent of a user turn skips assistant lines without usage.
    assert_eq!(
        find_assistant_message_by_uuid(&lines, &"a".to_string()),
        Some(figures(5, 1, 1, 1))
    );
}

#[test]
fn leaf_search_over_files() {
    let f1 = vec![entry(EntryKind::Assistant, Some("z"), None, Some(figures(1, 0, 0, 0)))];
    let f2 = vec![entry(EntryKind::Assistant, Some("leaf"), None, Some(figures(2, 0, 0, 0)))];
    let f3 = vec![entry(EntryKind::Assistant, Some("leaf"), None, Some(figures(3, 0, 0, 0)))];
    let files = vec![f1, f2, f3];
    assert_eq!(find_usage_by_leaf_uuid(&files, &"leaf".to_string()), Some(figures(2, 0, 0, 0)));
    assert_eq!(find_usage_by_leaf_uuid(&files, &"none".to_string()), None);
    let empty: Vec<Vec<Option<TranscriptEntry>>> = vec![];
    assert_eq!(find_usage_by_leaf_uuid(&empty, &"leaf".to_string()), None);
}

#[test]
fn cache_ratio_sums_assistant_turns() {
    let lines = vec![
        entry(EntryKind::Assistant, None, None, Some(figures(0, 100, 50, 850))),
        entry(EntryKind::User, None, None, Some(figures(0, 1000, 1000, 1000))),
        None,
        entry(EntryKind::Assistant, None, None, Some(figures(0, 10, 0, 990))),
        entry(EntryKind::Assistant, None, None, None),
    ];
    assert_eq!(accumulate_cache_in_file(&lines), Some((1840, 2000)));
}

#[test]
fn cache_ratio_none_without_input() {
    let lines = vec![
        entry(EntryKind::Assistant, None, None, Some(figures(5, 0, 0, 0))),
        entry(EntryKind::User, None, None, None),
    ];
    assert_eq!(accumulate_cache_in_file(&lines), None);
    let empty: Vec<Option<TranscriptEntry>> = vec![];
    assert_eq!(accumulate_cache_in_file(&empty), None);
}

#[test]
fn cache_totals_are_cumulative() {
    let a = vec![entry(EntryKind::Assistant, None, None, Some(figures(0, 1, 2, 3)))];
    let b = vec![entry(EntryKind::Assistant, None, None, Some(figures(0, 4, 5, 6)))];
    let mut ab = vec![];
    ab.extend(a.iter().cloned());
    ab.extend(b.iter().cloned());
    let (ra, da) = accumulate_cache_in_file(&a).unwrap();
    let (rb, db) = accumulate_cache_in_file(&b).unwrap();
    assert_eq!(accumulate_cache_in_file(&ab), Some((ra + rb, da + db)));
    assert!(ra <= da && rb <= db);
}

#[test]
fn appended_assistant_turn_is_reported() {
    let mut lines = vec![
        entry(EntryKind::Assistant, Some("a"), None, Some(figures(1, 1, 1, 1))),
        summary(Some("leaf")),
    ];
    lines.push(entry(EntryKind::Assistant, Some("b"), None, Some(figures(42, 0, 0, 0))));
    assert_eq!(found(try_parse_transcript_file(&lines)), Some(figures(42, 0, 0, 0)));
}

#[test]
fn recency_order_newest_first() {
    let order = recency_order(&vec![30, 10, 20]);
    assert_eq!(order, vec![0, 2, 1]);
    // Equal times: the file listed later comes first (stable sort, reversed).
    let order = recency_order(&vec![5, 7, 5, 7, -3]);
    assert_eq!(order, vec![3, 1, 2, 0, 4]);
    assert_eq!(recency_order(&vec![]), Vec::<usize>::new());
}

#[test]
fn recency_order_matches_sort_then_reverse() {
    let times: Vec<i128> = vec![3, 1, 4, 1, 5, 9, 2, 6, 5, 3, 5];
    let mut idx: Vec<usize> = (0..times.len()).collect();
    idx.sort_by_key(|&i| times[i]);
    idx.reverse();
    assert_eq!(recency_order(&times), idx);
}

#[test]
fn token_counts() {
    assert_eq!(token_count_text(0).as_deref(), Some("0"));
    assert_eq!(token_count_text(999).as_deref(), Some("999"));
    assert_eq!(token_count_text(1000).as_deref(), Some("1k"));
    assert_eq!(token_count_text(40000).as_deref(), Some("40k"));
    assert_eq!(token_count_text(40100), None);
}

#[test]
fn primary_text() {
    assert_eq!(
        context_primary(Some(("20.0%", "40.1k")), Some("96.4%")),
        "20.0% \u{b7} 40.1k tokens \u{b7} cache 96.4%"
    );
    assert_eq!(context_primary(None, None), "- \u{b7} - tokens \u{b7} cache -");
    assert_eq!(
        context_primary(Some(("5%", "999")), None),
        "5% \u{b7} 999 tokens \u{b7} cache -"
    );
}

#[test]
fn default_segment() {
    assert_eq!(ContextWindowSegment::default(), ContextWindowSegment::new());
}

#[test]
fn cache_totals_ignore_order() {
    let a = entry(EntryKind::Assistant, None, None, Some(figures(0, 1, 2, 3)));
    let b = entry(EntryKind::User, None, None, Some(figures(0, 9, 9, 9)));
    let c = entry(EntryKind::Assistant, None, None, Some(figures(0, 10, 0, 90)));
    let f = vec![a.clone(), b.clone(), None, c.clone()];
    let g = vec![c, None, a, b];
    assert_eq!(accumulate_cache_in_file(&f), accumulate_cache_in_file(&g));
    assert_eq!(accumulate_cache_in_file(&f), Some((93, 106)));
}

#[test]
fn history_fallback() {
    assert!(history_needed(false, false));
    assert!(!history_needed(true, false));
    assert!(!history_needed(false, true));
    let h = vec![None, Some(2u32), Some(3u32)];
    assert_eq!(pick_with_history(Some(1u32), false, &h), Some(1));
    assert_eq!(pick_with_history(None, false, &h), Some(2));
    assert_eq!(pick_with_history(None, true, &h), None);
    assert_eq!(pick_with_history::<u32>(None, false, &vec![None, None]), None);
}
