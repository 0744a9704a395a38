//! Reply matching and the text utilities underneath the tracker.

use difftrack::approval::{parse_approval_response, ReviewDecision};
use difftrack::diff::{combine_diff, untracked_file_block, worktree_exclusions};
use difftrack::text::{split_lines, trim_chars};

fn chars(s: &str) -> Vec<char> {
    s.chars().collect()
}

fn text(v: &[char]) -> String {
    v.iter().collect()
}

fn strings(v: Vec<Vec<char>>) -> Vec<String> {
    v.iter().map(|c| c.iter().collect()).collect()
}

#[test]
fn approval_replies_are_case_and_space_insensitive() {
    assert_eq!(
        parse_approval_response("YES "),
        Some(ReviewDecision::Approved)
    );
    assert_eq!(
        parse_approval_response("  Always\n"),
        Some(ReviewDecision::ApprovedForSession)
    );
    assert_eq!(parse_approval_response("no"), Some(ReviewDecision::Abort));
    assert_eq!(
        parse_approval_response("No, Provide Feedback"),
        Some(ReviewDecision::Abort)
    );
    assert_eq!(parse_approval_response("maybe later"), None);
    assert_eq!(parse_approval_response(""), None);
}

#[test]
fn trim_strips_unicode_whitespace() {
    assert_eq!(text(&trim_chars(&chars("  x y\t\n"))), "x y");
    assert_eq!(text(&trim_chars(&chars("\u{a0}z\u{3000}"))), "z");
    assert_eq!(text(&trim_chars(&chars("   "))), "");
}

#[test]
fn split_lines_matches_str_lines() {
    for text in [
        "",
        "a",
        "a\n",
        "a\nb",
        "a\r\nb\r\n",
        "\n\n",
        "tail\r",
        "a\r\r\nb",
    ] {
        let got = strings(split_lines(&chars(text)));
        let want: Vec<String> = text.lines().map(|l| l.to_string()).collect();
        assert_eq!(got, want, "lines of {text:?}");
    }
}

#[test]
fn worktree_exclusions_cover_only_subdirectories() {
    let raw = chars(
        "worktree /repo\nworktree /repo/linked\nworktree /repo/a/b\nworktree /other\nbare\n",
    );
    let dir = chars("/repo");
    let got = strings(worktree_exclusions(&raw, &dir));
    assert_eq!(got, vec![":(exclude)linked", ":(exclude)a/b"]);
}

#[test]
fn worktree_exclusion_ignores_trailing_spaces() {
    let raw = chars("worktree /repo/sub  \n");
    let got = strings(worktree_exclusions(&raw, &chars("/repo")));
    assert_eq!(got, vec![":(exclude)sub"]);
}

#[test]
fn untracked_block_for_empty_file() {
    let block = untracked_file_block(&chars("empty.txt"), &Some(chars("")));
    assert_eq!(
        text(&block),
        "diff --git a/empty.txt b/empty.txt\n\
         new file mode 100644\n\
         index 0000000..0000000\n\
         --- /dev/null\n\
         +++ b/empty.txt\n\
         @@ -0,0 +1,0 @@\n\
         \\ No newline at end of file\n\
         \n"
    );
}

#[test]
fn untracked_block_for_unreadable_file() {
    let block = untracked_file_block(&chars("blob.bin"), &None);
    assert_eq!(
        text(&block),
        "diff --git a/blob.bin b/blob.bin\n\
         new file mode 100644\n\
         index 0000000..0000000\n\
         --- /dev/null\n\
         +++ b/blob.bin\n\
         @@ -0,0 +1,1 @@\n\
         +[Binary or unreadable file]\n\
         \n"
    );
}

#[test]
fn combine_diff_trims_and_separates() {
    let vcs_part = chars("  diff text \n");
    let untracked = chars("block\n");
    assert_eq!(
        text(&combine_diff(&vcs_part, &untracked)),
        "diff text\nblock\n"
    );
    assert_eq!(
        text(&combine_diff(&vcs_part, &chars(""))),
        "diff text"
    );
    assert_eq!(
        text(&combine_diff(&chars("   "), &untracked)),
        "block\n"
    );
    assert_eq!(text(&combine_diff(&chars(""), &chars(""))), "");
}
