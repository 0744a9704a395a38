//! Behavior of the change tracker over a scripted session host.

use difftrack::host::SessionHost;
use difftrack::tracker::GitDiffTracker;
use std::cell::RefCell;
use std::rc::Rc;

#[derive(Default)]
struct HostState {
    head: String,
    worktree_out: String,
    diff_out: String,
    ls_out: String,
    files: Vec<(String, Option<u64>, Option<String>)>,
    now: u64,
    cwd: String,
    calls: Vec<Vec<String>>,
}

#[derive(Clone)]
struct FakeHost(Rc<RefCell<HostState>>);

impl FakeHost {
    fn new(state: HostState) -> (FakeHost, Rc<RefCell<HostState>>) {
        let shared = Rc::new(RefCell::new(state));
        (FakeHost(shared.clone()), shared)
    }
}

impl SessionHost for FakeHost {
    fn run_vcs(&mut self, args: &Vec<String>, _dir: &Option<String>) -> String {
        let mut st = self.0.borrow_mut();
        st.calls.push(args.clone());
        match args[0].as_str() {
            "rev-parse" => st.head.clone(),
            "worktree" => st.worktree_out.clone(),
            "diff" => st.diff_out.clone(),
            "ls-files" => st.ls_out.clone(),
            _ => String::new(),
        }
    }

    fn current_dir(&mut self) -> String {
        self.0.borrow().cwd.clone()
    }

    fn now(&mut self) -> u64 {
        self.0.borrow().now
    }

    fn file_timestamp(&mut self, path: &String) -> Option<u64> {
        let st = self.0.borrow();
        for (p, ts, _) in st.files.iter() {
            if p == path {
                return *ts;
            }
        }
        None
    }

    fn read_text_file(&mut self, path: &String) -> Option<String> {
        let st = self.0.borrow();
        for (p, _, content) in st.files.iter() {
            if p == path {
                return content.clone();
            }
        }
        None
    }
}

fn clean_repo_state() -> HostState {
    HostState {
        head: "abc123\n".to_string(),
        now: 1000,
        cwd: "/repo".to_string(),
        ..HostState::default()
    }
}

#[test]
fn baseline_failure_disables_tracker() {
    let (host, _st) = FakeHost::new(HostState {
        head: String::new(),
        ..HostState::default()
    });
    let mut tracker = GitDiffTracker::new(true, Some("/repo".to_string()), host);
    assert_eq!(tracker.get_diff(), None);
    assert_eq!(tracker.get_diff(), None);
    assert_eq!(tracker.get_diff_if_changed(), None);
}

#[test]
fn baseline_whitespace_output_disables_tracker() {
    let (host, _st) = FakeHost::new(HostState {
        head: "  \n".to_string(),
        ..HostState::default()
    });
    let mut tracker = GitDiffTracker::new(true, Some("/repo".to_string()), host);
    assert_eq!(tracker.get_diff(), None);
}

#[test]
fn disabled_by_caller_stays_disabled() {
    let (host, st) = FakeHost::new(clean_repo_state());
    let mut tracker = GitDiffTracker::new(false, Some("/repo".to_string()), host);
    assert_eq!(tracker.get_diff(), None);
    // A disabled tracker never ran the version-control tool.
    assert!(st.borrow().calls.is_empty());
}

#[test]
fn no_change_idempotence() {
    let (host, _st) = FakeHost::new(clean_repo_state());
    let mut tracker = GitDiffTracker::new(true, Some("/repo".to_string()), host);
    assert_eq!(tracker.get_diff_if_changed(), Some(String::new()));
    assert_eq!(tracker.get_diff_if_changed(), None);
    assert_eq!(tracker.get_diff_if_changed(), None);
}

#[test]
fn change_is_detected() {
    let mut state = clean_repo_state();
    state.diff_out = "diff --git a/f b/f\n+old line\n".to_string();
    let (host, st) = FakeHost::new(state);
    let mut tracker = GitDiffTracker::new(true, Some("/repo".to_string()), host);
    let first = tracker.get_diff_if_changed().expect("first diff");
    assert!(first.contains("+old line"));
    assert_eq!(tracker.get_diff_if_changed(), None);
    st.borrow_mut().diff_out = "diff --git a/f b/f\n+new line\n".to_string();
    let second = tracker.get_diff_if_changed().expect("changed diff");
    assert!(!second.is_empty());
    assert!(second.contains("+new line"));
}

#[test]
fn new_file_appears_with_exact_block() {
    let mut state = clean_repo_state();
    state.ls_out = "notes.txt\n".to_string();
    state.files.push((
        "/repo/notes.txt".to_string(),
        Some(2000),
        Some("a\nb\nc\n".to_string()),
    ));
    let (host, _st) = FakeHost::new(state);
    let mut tracker = GitDiffTracker::new(true, Some("/repo".to_string()), host);
    let diff = tracker.get_diff().expect("tracking enabled");
    assert_eq!(
        diff,
        "diff --git a/notes.txt b/notes.txt\n\
         new file mode 100644\n\
         index 0000000..0000000\n\
         --- /dev/null\n\
         +++ b/notes.txt\n\
         @@ -0,0 +1,3 @@\n\
         +a\n\
         +b\n\
         +c\n\
         \n"
    );
}

#[test]
fn preexisting_untracked_file_is_excluded() {
    let mut state = clean_repo_state();
    state.ls_out = "old.txt\n".to_string();
    state.files.push((
        "/repo/old.txt".to_string(),
        Some(500),
        Some("stale\n".to_string()),
    ));
    let (host, _st) = FakeHost::new(state);
    let mut tracker = GitDiffTracker::new(true, Some("/repo".to_string()), host);
    assert_eq!(tracker.get_diff(), Some(String::new()));
    assert_eq!(tracker.get_diff(), Some(String::new()));
}

#[test]
fn file_without_timestamp_is_skipped() {
    let mut state = clean_repo_state();
    state.ls_out = "mystery.txt\n".to_string();
    state.files.push((
        "/repo/mystery.txt".to_string(),
        None,
        Some("???\n".to_string()),
    ));
    let (host, _st) = FakeHost::new(state);
    let mut tracker = GitDiffTracker::new(true, Some("/repo".to_string()), host);
    assert_eq!(tracker.get_diff(), Some(String::new()));
}

#[test]
fn unreadable_file_gets_placeholder_block() {
    let mut state = clean_repo_state();
    state.ls_out = "blob.bin\n".to_string();
    state
        .files
        .push(("/repo/blob.bin".to_string(), Some(2000), None));
    let (host, _st) = FakeHost::new(state);
    let mut tracker = GitDiffTracker::new(true, Some("/repo".to_string()), host);
    let diff = tracker.get_diff().expect("tracking enabled");
    assert!(diff.contains("@@ -0,0 +1,1 @@\n+[Binary or unreadable file]\n"));
}

#[test]
fn sibling_worktree_paths_are_excluded_from_queries() {
    let mut state = clean_repo_state();
    state.worktree_out =
        "worktree /repo\nworktree /repo/linked\nworktree /elsewhere/other\n".to_string();
    let (host, st) = FakeHost::new(state);
    let mut tracker = GitDiffTracker::new(true, Some("/repo".to_string()), host);
    tracker.get_diff().expect("tracking enabled");
    let calls = st.borrow().calls.clone();
    let diff_call = calls
        .iter()
        .find(|c| c[0] == "diff")
        .expect("diff invocation");
    assert_eq!(
        diff_call.as_slice(),
        &[
            "diff".to_string(),
            "abc123".to_string(),
            "--".to_string(),
            ":(exclude)linked".to_string()
        ]
    );
    let ls_call = calls
        .iter()
        .find(|c| c[0] == "ls-files")
        .expect("ls-files invocation");
    assert_eq!(
        ls_call.as_slice(),
        &[
            "ls-files".to_string(),
            "--others".to_string(),
            "--exclude-standard".to_string(),
            "--".to_string(),
            ":(exclude)linked".to_string()
        ]
    );
    // Neither the tracked directory itself nor an unrelated path yields a
    // pattern.
    for call in calls.iter() {
        assert!(!call.iter().any(|a| a.contains("/elsewhere")));
        assert!(!call.iter().any(|a| a == ":(exclude)"));
    }
}

#[test]
fn no_newline_marker_follows_last_added_line() {
    let mut state = clean_repo_state();
    state.ls_out = "tail.txt\n".to_string();
    state.files.push((
        "/repo/tail.txt".to_string(),
        Some(3000),
        Some("x\ny".to_string()),
    ));
    let (host, _st) = FakeHost::new(state);
    let mut tracker = GitDiffTracker::new(true, Some("/repo".to_string()), host);
    let diff = tracker.get_diff().expect("tracking enabled");
    assert!(diff.contains("+x\n+y\n\\ No newline at end of file\n"));
}

#[test]
fn digest_stability_across_plain_diff_calls() {
    let mut state = clean_repo_state();
    state.diff_out = "diff --git a/f b/f\n+line\n".to_string();
    let (host, _st) = FakeHost::new(state);
    let mut tracker = GitDiffTracker::new(true, Some("/repo".to_string()), host);
    assert!(tracker.get_diff_if_changed().is_some());
    assert!(tracker.get_diff().is_some());
    assert!(tracker.get_diff().is_some());
    assert_eq!(tracker.get_diff_if_changed(), None);
}

#[test]
fn combined_diff_separates_tracked_and_untracked_parts() {
    let mut state = clean_repo_state();
    state.diff_out = "diff --git a/f b/f\n+edit\n".to_string();
    state.ls_out = "fresh.txt\n".to_string();
    state.files.push((
        "/repo/fresh.txt".to_string(),
        Some(5000),
        Some("new\n".to_string()),
    ));
    let (host, _st) = FakeHost::new(state);
    let mut tracker = GitDiffTracker::new(true, Some("/repo".to_string()), host);
    let diff = tracker.get_diff().expect("tracking enabled");
    assert_eq!(
        diff,
        "diff --git a/f b/f\n+edit\n\
         diff --git a/fresh.txt b/fresh.txt\n\
         new file mode 100644\n\
         index 0000000..0000000\n\
         --- /dev/null\n\
         +++ b/fresh.txt\n\
         @@ -0,0 +1,1 @@\n\
         +new\n\
         \n"
    );
}

#[test]
fn baseline_decision_trims_or_disables() {
    let chars = |s: &str| s.chars().collect::<Vec<char>>();
    assert_eq!(
        difftrack::tracker::decide_baseline(&chars("  abc123\n")),
        Some(chars("abc123"))
    );
    assert_eq!(difftrack::tracker::decide_baseline(&chars("  \n")), None);
    assert_eq!(difftrack::tracker::decide_baseline(&chars("")), None);
}

#[test]
fn untracked_blocks_concatenate_in_listing_order() {
    let mut state = clean_repo_state();
    state.ls_out = "a.txt\nb.txt\n".to_string();
    state
        .files
        .push(("/repo/a.txt".to_string(), Some(2000), Some("one\n".to_string())));
    state
        .files
        .push(("/repo/b.txt".to_string(), Some(2000), Some("two\n".to_string())));
    let (host, _st) = FakeHost::new(state);
    let mut tracker = GitDiffTracker::new(true, Some("/repo".to_string()), host);
    let diff = tracker.get_diff().expect("tracking enabled");
    assert_eq!(
        diff,
        "diff --git a/a.txt b/a.txt\n\
         new file mode 100644\n\
         index 0000000..0000000\n\
         --- /dev/null\n\
         +++ b/a.txt\n\
         @@ -0,0 +1,1 @@\n\
         +one\n\
         \n\
         diff --git a/b.txt b/b.txt\n\
         new file mode 100644\n\
         index 0000000..0000000\n\
         --- /dev/null\n\
         +++ b/b.txt\n\
         @@ -0,0 +1,1 @@\n\
         +two\n\
         \n"
    );
}

#[test]
fn no_cwd_falls_back_to_current_directory() {
    let mut state = clean_repo_state();
    state.cwd = "/fallback".to_string();
    state.ls_out = "here.txt\n".to_string();
    state.files.push((
        "/fallback/here.txt".to_string(),
        Some(4000),
        Some("hi\n".to_string()),
    ));
    let (host, _st) = FakeHost::new(state);
    let mut tracker = GitDiffTracker::new(true, None, host);
    let diff = tracker.get_diff().expect("tracking enabled");
    assert!(diff.contains("+++ b/here.txt"));
}
