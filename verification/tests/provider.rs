use herdr::input::{KeyCode, KeyEvent, KeyModifiers};
use herdr::paths::{abbreviate_home, home_dir, paths_equal, slashed_path, strip_path_prefix, HomeDirectory, HomeVariables};
use herdr::provider::{arrange_directory_preview, dedup_by_canonical_identity, empty_query_result, finish_zoxide_query, parse_zoxide_list, run_zoxide_query_step, zoxide_lines, DIRECTORY_PREVIEW_LIMIT, DirectoryPreviewEntry, QUERY_POLL_MILLIS, QueryAction, QueryEvent, SearchProviderCandidate, ZoxideDirectory, ZoxideQueryResult};

fn key(code: KeyCode, modifiers: KeyModifiers) -> KeyEvent {
    KeyEvent { code, modifiers }
}

/// The key by which a score is ordered.
fn score_key(score: f64) -> u64 {
    score.to_bits()
}

fn candidate(shown: &str, canonical: &str, score: f64) -> SearchProviderCandidate {
    SearchProviderCandidate {
        shown_path: shown.to_string(),
        canonical_path: canonical.to_string(),
        score: score_key(score),
    }
}

/// The directories of provider output, with the scores read as numbers.
fn parsed(output: &str) -> Vec<ZoxideDirectory> {
    let scores = zoxide_lines(output)
        .iter()
        .map(|line| match line.score.parse::<f64>() {
            Ok(score) if score.is_finite() => Some(score_key(score)),
            _ => None,
        })
        .collect();
    parse_zoxide_list(output, &scores)
}

#[test]
fn parse_preserves_paths_with_spaces() {
    let output = "5221.6 /Users/fronz/Developer/plan-app\n\
                  62.8 /Users/fronz/my project/dir with spaces\n";
    let parsed = parsed(output);
    assert_eq!(parsed.len(), 2);
    assert_eq!(parsed[0].score, score_key(5221.6));
    assert_eq!(parsed[0].shown_path, "/Users/fronz/Developer/plan-app");
    assert_eq!(parsed[1].score, score_key(62.8));
    assert_eq!(parsed[1].shown_path, "/Users/fronz/my project/dir with spaces");
}

#[test]
fn parse_skips_malformed_lines() {
    let output = "not-a-score /some/path\n\
                  no-whitespace-separator\n\
                  NaN /nan/path\n\
                  inf /infinite/path\n\
                  12.5\n\
                  12.5    \n\
                  \n\
                  7.5 /valid/path\n";
    assert_eq!(
        parsed(output),
        vec![ZoxideDirectory { shown_path: "/valid/path".to_string(), score: score_key(7.5) }]
    );
}

#[test]
fn lines_without_a_path_are_left_out_before_scores_are_read() {
    let lines = zoxide_lines("12.5\n  3.5   /a b \nx /y\n");
    assert_eq!(lines.len(), 2);
    assert_eq!(lines[0].score, "3.5");
    assert_eq!(lines[0].path, "/a b");
    assert_eq!(lines[1].score, "x");
    assert_eq!(lines[1].path, "/y");
}

#[test]
fn candidate_resolves_canonical_identity() {
    let candidate = SearchProviderCandidate::from_shown_path(
        "/tmp/link".to_string(),
        Some("/private/tmp/real".to_string()),
        score_key(10.0),
    );
    assert_eq!(candidate.shown_path, "/tmp/link");
    assert_eq!(candidate.canonical_path, "/private/tmp/real");
    assert_eq!(candidate.score, score_key(10.0));
}

#[test]
fn candidate_keeps_stale_path_as_identity() {
    let candidate =
        SearchProviderCandidate::from_shown_path("/tmp/missing".to_string(), None, score_key(3.0));
    assert_eq!(candidate.shown_path, "/tmp/missing");
    assert_eq!(candidate.canonical_path, "/tmp/missing");
}

#[test]
fn dedup_keeps_highest_score_alias() {
    let candidates = vec![
        candidate("/alias/low", "/identity/one", 10.0),
        candidate("/alias/other", "/identity/two", 5.0),
        candidate("/alias/high", "/identity/one", 20.0),
    ];
    let deduped = dedup_by_canonical_identity(candidates);
    assert_eq!(deduped.len(), 2);
    // Highest-score alias wins even when it arrives later.
    assert_eq!(deduped[0].shown_path, "/alias/high");
    assert_eq!(deduped[0].score, score_key(20.0));
    // Identity order follows first appearance.
    assert_eq!(deduped[1].shown_path, "/alias/other");
}

#[test]
fn dedup_keeps_the_first_of_equal_scores() {
    let deduped = dedup_by_canonical_identity(vec![
        candidate("/alias/first", "/identity", 10.0),
        candidate("/alias/second", "/identity", 10.0),
    ]);
    assert_eq!(deduped.len(), 1);
    assert_eq!(deduped[0].shown_path, "/alias/first");
}

fn entry(name: &str, is_dir: bool) -> DirectoryPreviewEntry {
    DirectoryPreviewEntry { name: name.to_string(), is_dir }
}

#[test]
fn preview_includes_dotfiles_and_sorts_dirs_first() {
    let preview = arrange_directory_preview(vec![
        entry("bfile", false),
        entry("zdir", true),
        entry(".afile", false),
        entry(".hiddendir", true),
    ]);
    assert!(!preview.truncated);
    let names: Vec<(&str, bool)> =
        preview.entries.iter().map(|entry| (entry.name.as_str(), entry.is_dir)).collect();
    assert_eq!(
        names,
        vec![(".hiddendir", true), ("zdir", true), (".afile", false), ("bfile", false)]
    );
}

#[test]
fn preview_limits_entries_and_records_truncation() {
    let files = (0..205).rev().map(|index| entry(&format!("file-{index:03}"), false)).collect();
    let preview = arrange_directory_preview(files);
    assert!(preview.truncated);
    assert_eq!(preview.entries.len(), DIRECTORY_PREVIEW_LIMIT);
    assert_eq!(preview.entries[0].name, "file-000");
    assert_eq!(preview.entries[199].name, "file-199");

    let preview = arrange_directory_preview(vec![entry("only", false)]);
    assert!(!preview.truncated);
    assert_eq!(preview.entries.len(), 1);
}

#[test]
fn preview_of_exactly_the_limit_is_not_truncated() {
    let files = (0..200).map(|index| entry(&format!("file-{index:03}"), false)).collect();
    let preview = arrange_directory_preview(files);
    assert!(!preview.truncated);
    assert_eq!(preview.entries.len(), 200);
}

#[test]
fn basename_match_wins_over_better_path_rank() {
    let c = candidate("/a/b/foo", "/a/b/foo", 10.0);
    let rank = c.match_rank("foo").expect("should match");
    assert_eq!(rank.0, 0);
}

#[test]
fn path_match_used_when_basename_does_not_match() {
    let c = candidate("/a/b/foo", "/a/b/foo", 10.0);
    let rank = c.match_rank("a/b").expect("should match via path");
    assert!(rank.0 > 0);
}

#[test]
fn no_match_returns_none() {
    let c = candidate("/a/b/foo", "/a/b/foo", 10.0);
    assert!(c.match_rank("xyz").is_none());
}

#[test]
fn abbreviated_path_replaces_home_with_tilde() {
    let home = home_dir(&variables(Some("/home/user"), None, None, None), false);
    let abbrev = abbreviate_home("/home/user/projects/myapp", &home);
    assert!(abbrev.starts_with('~'));
    assert!(abbrev.ends_with("projects/myapp"));
}

#[test]
fn abbreviated_path_keeps_non_home_paths() {
    let home = home_dir(&variables(Some("/home/user"), None, None, None), false);
    assert_eq!(abbreviate_home("/tmp/some/dir", &home), "/tmp/some/dir");
    assert_eq!(abbreviate_home("/home/username/dir", &home), "/home/username/dir");
    assert_eq!(abbreviate_home("/tmp/some/dir", &None), "/tmp/some/dir");
}

#[test]
fn shown_paths_give_basename_display_and_abbreviation() {
    let c = candidate("/home/user/projects/myapp/", "/x", 1.0);
    assert_eq!(c.basename(), "myapp");
    assert_eq!(c.display_path(), "/home/user/projects/myapp/");
    let root = candidate("/", "/", 1.0);
    assert_eq!(root.basename(), "/");
}

fn variables(
    home: Option<&str>,
    user_profile: Option<&str>,
    home_drive: Option<&str>,
    home_path: Option<&str>,
) -> HomeVariables {
    HomeVariables {
        home: home.map(str::to_string),
        user_profile: user_profile.map(str::to_string),
        home_drive: home_drive.map(str::to_string),
        home_path: home_path.map(str::to_string),
    }
}

#[test]
fn home_directory_comes_from_the_first_variable_that_is_set() {
    let unix = home_dir(&variables(Some("/home/user"), Some("C:\\Users\\u"), None, None), false);
    assert_eq!(unix.expect("home").path, "/home/user");
    assert!(home_dir(&variables(None, Some("C:\\Users\\u"), None, None), false).is_none());
}

#[test]
fn windows_home_directory_falls_back_to_profile_and_drive() {
    let profile = home_dir(&variables(None, Some("C:\\Users\\u"), None, None), true);
    assert_eq!(profile.expect("profile").path, "C:\\Users\\u");
    let drive = home_dir(&variables(None, None, Some("C:"), Some("\\Users\\u")), true);
    assert_eq!(drive.expect("drive and path").path, "C:\\Users\\u");
    assert!(home_dir(&variables(None, None, Some("C:"), None), true).is_none());
}

/// Runs the decisions of a query over what is seen of its process. `resolve` gives the canonical
/// path of a shown one. The second value counts the looks at the process.
fn query(
    events: &[QueryEvent],
    output: &str,
    resolve: impl Fn(&str) -> Option<String>,
) -> (ZoxideQueryResult, usize) {
    for (index, event) in events.iter().enumerate() {
        match run_zoxide_query_step(*event) {
            QueryAction::Poll => {}
            QueryAction::Abort => return (empty_query_result(true), index + 1),
            QueryAction::Discard { available } => {
                return (empty_query_result(available), index + 1)
            }
            QueryAction::Parse => {
                let directories = parsed(output);
                let resolved = directories.iter().map(|d| resolve(&d.shown_path)).collect();
                return (finish_zoxide_query(&directories, &resolved), index + 1);
            }
        }
    }
    panic!("the query did not end");
}

const ENDED: [QueryEvent; 2] =
    [QueryEvent::Running { expired: false }, QueryEvent::Exited { success: true }];

#[test]
fn run_zoxide_query_parses_valid_output() {
    let output = "100.0 /dir/real\n50.0 /nonexistent/stale\n";
    let (result, _) = query(&ENDED, output, |path| {
        if path == "/dir/real" { Some("/private/dir/real".to_string()) } else { None }
    });
    assert!(result.available);
    assert_eq!(result.candidates.len(), 2);
    // The existing directory is canonicalized; the stale one keeps its path.
    assert_eq!(result.candidates[0].canonical_path, "/private/dir/real");
    assert_eq!(result.candidates[0].score, score_key(100.0));
    assert_eq!(result.candidates[1].shown_path, "/nonexistent/stale");
    assert_eq!(result.candidates[1].canonical_path, "/nonexistent/stale");
}

#[test]
fn run_zoxide_query_reports_unavailable_for_missing_binary() {
    let (result, _) = query(&[QueryEvent::SpawnFailed], "", |_| None);
    assert!(!result.available);
    assert!(result.candidates.is_empty());
}

#[test]
fn run_zoxide_query_reports_unavailable_for_non_executable() {
    // A file that exists but is not executable fails to spawn.
    let (result, _) = query(&[QueryEvent::SpawnFailed], "1.0 /should-not-run\n", |_| None);
    assert!(!result.available);
    assert!(result.candidates.is_empty());
}

#[test]
fn run_zoxide_query_times_out() {
    let events = [
        QueryEvent::Running { expired: false },
        QueryEvent::Running { expired: false },
        QueryEvent::Running { expired: true },
        QueryEvent::Exited { success: true },
    ];
    let (result, looks) = query(&events, "1.0 /late\n", |_| None);
    assert!(result.available);
    assert!(result.candidates.is_empty());
    // The end of the process is not waited for.
    assert_eq!(looks, 3);
}

#[test]
fn run_zoxide_query_returns_empty_on_nonzero_exit() {
    let events = [QueryEvent::Exited { success: false }];
    let (result, _) = query(&events, "100.0 /should-not-appear\n", |_| None);
    assert!(result.available);
    assert!(result.candidates.is_empty());
}

#[test]
fn run_zoxide_query_aborts_when_the_process_cannot_be_watched() {
    assert_eq!(run_zoxide_query_step(QueryEvent::WaitFailed), QueryAction::Abort);
    let (result, _) = query(&[QueryEvent::WaitFailed], "1.0 /x\n", |_| None);
    assert!(result.available);
    assert!(result.candidates.is_empty());
}

#[test]
fn run_zoxide_query_returns_empty_on_malformed_output() {
    let (result, _) = query(&ENDED, "garbage no score\nbroken\n", |_| None);
    assert!(result.available);
    assert!(result.candidates.is_empty());
}

#[test]
fn run_zoxide_query_deduplicates_canonical_aliases() {
    let output = "10.0 /dir/alias\n200.0 /dir/real\n";
    let (result, _) = query(&ENDED, output, |_| Some("/dir/real".to_string()));
    assert!(result.available);
    assert_eq!(result.candidates.len(), 1);
    // Highest-score alias wins.
    assert_eq!(result.candidates[0].canonical_path, "/dir/real");
    assert_eq!(result.candidates[0].score, score_key(200.0));
    assert_eq!(result.candidates[0].shown_path, "/dir/real");
}

#[test]
fn run_zoxide_query_handles_large_output_without_deadlock() {
    let mut output = String::new();
    for i in 0..10000 {
        output.push_str(&format!("{:07.1} /dir/real\n", i as f64));
    }
    let (result, _) = query(&ENDED, &output, |_| Some("/canonical/real".to_string()));
    assert!(result.available);
    // All lines resolve to the same canonical path, so there is exactly one candidate.
    assert_eq!(result.candidates.len(), 1);
    assert_eq!(result.candidates[0].canonical_path, "/canonical/real");
    assert_eq!(result.candidates[0].score, score_key(9999.0));
}

#[test]
fn polls_are_twenty_milliseconds_apart() {
    assert_eq!(QUERY_POLL_MILLIS, 20);
}

fn home(path: &str) -> Option<HomeDirectory> {
    Some(HomeDirectory { path: path.to_string(), symbol: "~".to_string() })
}

#[test]
fn the_home_directory_is_replaced_by_its_symbol_alone() {
    let shown = |path: &str| abbreviate_home(path, &home("/home/u"));
    assert_eq!(shown("/home/u/projects/myapp"), "~/projects/myapp");
    assert_eq!(shown("/home/u"), "~");
    assert_eq!(shown("/home/u/"), "~");
    assert_eq!(shown("/home//u/projects//myapp/"), "~/projects//myapp");
    assert_eq!(shown("/home/user"), "/home/user");
    assert_eq!(shown("/srv"), "/srv");
    assert_eq!(abbreviate_home("/home/u/a", &home("/home/u/")), "~/a");
    assert_eq!(abbreviate_home("/home/u/a", &None), "/home/u/a");
    assert_eq!(strip_path_prefix("/home/u/a", "/home/u"), Some("/a".to_string()));
    assert_eq!(strip_path_prefix("/home/u", "/home/u"), Some(String::new()));
    assert_eq!(strip_path_prefix("/srv", "/home/u"), None);
}

#[test]
fn paths_of_windows_are_brought_into_the_form_with_slashes() {
    assert_eq!(slashed_path("c:\\Users\\me\\app"), "C:/Users/me/app");
    assert_eq!(slashed_path("C:/Users"), "C:/Users");
    assert_eq!(slashed_path("\\home"), "/home");
    assert_eq!(slashed_path("a\\b"), "a/b");
    assert_eq!(slashed_path(""), "");
    assert!(paths_equal(&slashed_path("c:\\Users\\"), &slashed_path("C:\\Users")));
    let profile = Some(HomeDirectory {
        path: slashed_path("C:\\Users\\me"),
        symbol: "%USERPROFILE%".to_string(),
    });
    assert_eq!(
        abbreviate_home(&slashed_path("C:\\Users\\me\\app"), &profile),
        "%USERPROFILE%/app"
    );
}

#[test]
fn aliases_leave_the_order_of_first_appearance() {
    let listed = || {
        vec![
            candidate("/a", "/one", 1.0),
            candidate("/b", "/two", 5.0),
            candidate("/c", "/one/", 3.0),
            candidate("/d", "/one", 3.0),
            candidate("/e", "/three", 9.0),
            candidate("/f", "/two", 4.0),
        ]
    };
    let once = dedup_by_canonical_identity(listed());
    let shown: Vec<&str> = once.iter().map(|c| c.shown_path.as_str()).collect();
    assert_eq!(shown, vec!["/c", "/b", "/e"]);
    let twice = dedup_by_canonical_identity(dedup_by_canonical_identity(listed()));
    let shown_twice: Vec<&str> = twice.iter().map(|c| c.shown_path.as_str()).collect();
    assert_eq!(shown_twice, shown);
}
