use herdr::matching::{workspace_picker_fuzzy_match, workspace_picker_match_position_sum, workspace_picker_match_rank, workspace_switcher_match_rank};
use herdr::text::{append_printable, decimal_text, subsequence, truncate_secondary_segments, truncate_text};


#[test]
fn secondary_truncation_keeps_left_segments_before_right() {
    let segs = |s: &[&str]| s.iter().map(|x| x.to_string()).collect::<Vec<_>>();

    // Everything fits: joined with separators.
    assert_eq!(
        truncate_secondary_segments(&segs(&["repo", "main", "1 working"]), 23),
        "repo · main · 1 working"
    );
    // Rightmost segment truncates first.
    assert_eq!(
        truncate_secondary_segments(&segs(&["repo", "main", "1 working"]), 18),
        "repo · main · 1 w…"
    );
    // Then the middle segment, then only the left one remains.
    assert_eq!(
        truncate_secondary_segments(&segs(&["repo", "main", "1 working"]), 10),
        "repo · ma…"
    );
    assert_eq!(
        truncate_secondary_segments(&segs(&["repo", "main", "1 working"]), 8),
        "repo"
    );
    // A single segment truncates on its own.
    assert_eq!(
        truncate_secondary_segments(&segs(&["repository"]), 6),
        "repos…"
    );
    assert_eq!(
        truncate_secondary_segments(&segs(&["repository", "working"]), 10),
        "repository"
    );
    assert_eq!(
        truncate_secondary_segments(&segs(&["repo", "long activity"]), 11),
        "repo · lon…"
    );
    assert_eq!(
        truncate_secondary_segments(&segs(&["repo", "working"]), 8),
        "repo"
    );
    assert_eq!(
        truncate_secondary_segments(&segs(&["working"]), 6),
        "worki…"
    );
    // No dangling separator at the drop boundary, never past the width.
    for width in [4, 5, 6, 7] {
        let out = truncate_secondary_segments(&segs(&["repo", "main"]), width);
        assert!(!out.ends_with('·'), "width {width}: {out:?}");
        assert!(!out.ends_with(' '), "width {width}: {out:?}");
        assert!(out.chars().count() <= width, "width {width}: {out:?}");
    }
    assert_eq!(
        truncate_secondary_segments(&segs(&["repo", "main"]), 3),
        "re…"
    );
    assert_eq!(
        truncate_secondary_segments(&segs(&["repo", "main"]), 1),
        "…"
    );
    assert_eq!(truncate_secondary_segments(&Vec::new(), 10), "");
    assert_eq!(truncate_secondary_segments(&segs(&["repo"]), 0), "");
}

#[test]
fn texts_are_cut_to_their_width() {
    assert_eq!(truncate_text("workspace", 9), "workspace");
    assert_eq!(truncate_text("workspace", 5), "work…");
    assert_eq!(truncate_text("workspace", 1), "…");
    assert_eq!(truncate_text("workspace", 0), "");
}

#[test]
fn segments_are_joined_where_they_fit() {
    let segments = vec!["repo".to_string(), "main".to_string()];
    assert_eq!(truncate_secondary_segments(&segments, 11), "repo · main");
    assert_eq!(truncate_secondary_segments(&segments, 10), "repo · ma…");
}

#[test]
fn control_characters_are_not_appended() {
    let mut s = "a".to_string();
    append_printable(&mut s, "b\n\u{7f}\u{85}c ");
    assert_eq!(s, "abc ");
}

#[test]
fn ranks_put_word_starts_before_contained_and_scattered_terms() {
    assert_eq!(workspace_switcher_match_rank("iss", "other issue").map(|r| r.0), Some(0));
    assert_eq!(workspace_switcher_match_rank("sue", "other issue").map(|r| r.0), Some(1));
    assert_eq!(
        workspace_switcher_match_rank("orsu", "other issue"),
        Some((2, usize::MAX / 2))
    );
    assert_eq!(workspace_switcher_match_rank("iss", "other_issue"), Some((0, 6)));
    assert_eq!(workspace_switcher_match_rank("ISS", "other issue").map(|r| r.0), Some(0));
    assert_eq!(workspace_switcher_match_rank("ÄÖ", "äöü").map(|r| r.0), Some(0));
    assert_eq!(workspace_switcher_match_rank("xyz", "other issue"), None);
    assert_eq!(workspace_switcher_match_rank("  ", "anything"), Some((0, 0)));
}

#[test]
fn numbers_are_written_in_decimal() {
    assert_eq!(decimal_text(0), "0");
    assert_eq!(decimal_text(1024), "1024");
}

#[test]
fn scattered_characters_and_positions_are_found() {
    let chars = |s: &str| -> Vec<char> { s.chars().collect() };
    assert!(workspace_picker_fuzzy_match(&chars("oie"), &chars("other issue")));
    assert!(!workspace_picker_fuzzy_match(&chars("eio"), &chars("other issue")));
    let terms = vec![chars("iss"), chars("ther"), chars("nowhere")];
    assert_eq!(workspace_picker_match_position_sum(&terms, &chars("other issue")), 7);
    assert_eq!(workspace_picker_match_rank("th", "other issue"), Some((1, 1)));
}

#[test]
fn spacing_and_order_of_terms_do_not_change_the_rank() {
    let rank = workspace_switcher_match_rank("iss oth", "other issue");
    assert_eq!(rank, Some((0, 6)));
    for query in ["oth iss", "  iss   oth ", "oth\tiss", "ISS Oth"] {
        assert_eq!(workspace_switcher_match_rank(query, "other issue"), rank, "{query}");
    }
    let scattered = workspace_switcher_match_rank("orsu hris", "other issue");
    assert_eq!(scattered, Some((2, usize::MAX / 2)));
    assert_eq!(workspace_switcher_match_rank("hris   orsu", "other issue"), scattered);
}

#[test]
fn a_subsequence_keeps_its_order() {
    let chars = |s: &str| -> Vec<char> { s.chars().collect() };
    assert!(subsequence(&chars(""), &chars("")));
    assert!(subsequence(&chars("aab"), &chars("xaxaxb")));
    assert!(!subsequence(&chars("aab"), &chars("ab")));
    assert!(!subsequence(&chars("ba"), &chars("ab")));
}

#[test]
fn ascii_case_counts_in_neither_query_nor_text() {
    let rank = workspace_switcher_match_rank("iss oth", "other issue");
    for (query, text) in [
        ("ISS OTH", "other issue"),
        ("iss oth", "OTHER ISSUE"),
        ("iSs  oTh", "Other Issue"),
    ] {
        assert_eq!(workspace_switcher_match_rank(query, text), rank, "{query} {text}");
        assert_eq!(workspace_picker_match_rank(query, text), rank, "{query} {text}");
    }
    assert_eq!(workspace_switcher_match_rank("[", "{"), None);
    assert_eq!(workspace_switcher_match_rank("@", "`"), None);
}
