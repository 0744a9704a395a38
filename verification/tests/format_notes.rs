//! Exact output of the Markdown note formatters.

use difftrack::format::{
    format_exec_approval_request, format_exec_note, format_mcp_begin_note, format_mcp_end_note,
    format_patch_approval_request, format_patch_details, format_patch_note, CommandOutput,
    FileChange, McpInvocation, McpToolResult,
};

fn cmd(parts: &[&str]) -> Vec<String> {
    parts.iter().map(|s| s.to_string()).collect()
}

#[test]
fn exec_approval_request_without_reason() {
    let msg = format_exec_approval_request(&cmd(&["echo", "hi"]), None);
    assert_eq!(
        msg,
        "**Execute command?**\n\nAgent wants to execute a command\n\n```bash\necho hi\n```\n\n\
         [OPTIONS]\n1. Yes\n2. Always\n3. No, provide feedback\n[/OPTIONS]"
    );
}

#[test]
fn exec_approval_request_with_reason() {
    let msg = format_exec_approval_request(&cmd(&["rm", "-rf", "build"]), Some("Cleans artifacts"));
    assert_eq!(
        msg,
        "**Execute command?**\n\nCleans artifacts\n\n```bash\nrm -rf build\n```\n\n\
         [OPTIONS]\n1. Yes\n2. Always\n3. No, provide feedback\n[/OPTIONS]"
    );
}

#[test]
fn patch_approval_request_full() {
    let msg = format_patch_approval_request(
        2,
        10,
        3,
        Some("Fixes the parser"),
        Some("/repo"),
        Some("**details**"),
    );
    assert_eq!(
        msg,
        "**Proposed patch to 2 files (+10 -3)**\n\n\
         This will grant write access to /repo for the remainder of this session.\n\n\
         Fixes the parser\n\n\
         **details**\n\n\
         **Apply changes?**\n\n[OPTIONS]\n1. Yes\n2. No, provide feedback\n[/OPTIONS]"
    );
}

#[test]
fn patch_approval_request_minimal_singular() {
    let msg = format_patch_approval_request(1, 0, 0, None, None, None);
    assert_eq!(
        msg,
        "**Proposed patch to 1 file (+0 -0)**\n\n\
         **Apply changes?**\n\n[OPTIONS]\n1. Yes\n2. No, provide feedback\n[/OPTIONS]"
    );
}

#[test]
fn patch_approval_request_empty_details_omitted() {
    let msg = format_patch_approval_request(3, 1, 2, None, None, Some(""));
    assert_eq!(
        msg,
        "**Proposed patch to 3 files (+1 -2)**\n\n\
         **Apply changes?**\n\n[OPTIONS]\n1. Yes\n2. No, provide feedback\n[/OPTIONS]"
    );
}

#[test]
fn patch_approval_request_zero_and_large_counts() {
    let msg = format_patch_approval_request(0, 1234567890123456, 0, None, None, None);
    assert!(msg.starts_with("**Proposed patch to 0 files (+1234567890123456 -0)**"));
}

#[test]
fn exec_note_success_with_preview() {
    let out = CommandOutput {
        exit_code: 0,
        formatted_output: "foo\nbar\n".to_string(),
    };
    let msg = format_exec_note(&cmd(&["ls", "-la"]), &out);
    assert_eq!(
        msg,
        "**Exec:** `ls -la`\n**Status:** Success\n\n```text\nfoo\nbar\n```"
    );
}

#[test]
fn exec_note_failure_shows_exit_code() {
    let out = CommandOutput {
        exit_code: 3,
        formatted_output: String::new(),
    };
    let msg = format_exec_note(&cmd(&["false"]), &out);
    assert_eq!(msg, "**Exec:** `false`\n**Status:** Failed (exit 3)");
}

#[test]
fn exec_note_negative_exit_code() {
    let out = CommandOutput {
        exit_code: -9,
        formatted_output: String::new(),
    };
    let msg = format_exec_note(&cmd(&["crash"]), &out);
    assert_eq!(msg, "**Exec:** `crash`\n**Status:** Failed (exit -9)");
}

#[test]
fn exec_note_clips_long_lines() {
    let long_line: String = std::iter::repeat('x').take(250).collect();
    let out = CommandOutput {
        exit_code: 0,
        formatted_output: format!("{long_line}\n"),
    };
    let msg = format_exec_note(&cmd(&["gen"]), &out);
    let clipped: String = std::iter::repeat('x').take(200).collect();
    assert_eq!(
        msg,
        format!("**Exec:** `gen`\n**Status:** Success\n\n```text\n{clipped} …\n```")
    );
}

#[test]
fn exec_note_truncates_after_twenty_lines() {
    let mut text = String::new();
    for i in 0..25 {
        text.push_str(&format!("line {i}\n"));
    }
    let out = CommandOutput {
        exit_code: 0,
        formatted_output: text,
    };
    let msg = format_exec_note(&cmd(&["spam"]), &out);
    assert!(msg.contains("line 19\n"));
    assert!(!msg.contains("line 20\n"));
    assert!(msg.ends_with("… (truncated)\n```"));
}

#[test]
fn exec_note_blank_output_has_no_preview() {
    let out = CommandOutput {
        exit_code: 0,
        formatted_output: "   \n  \n".to_string(),
    };
    let msg = format_exec_note(&cmd(&["quiet"]), &out);
    assert_eq!(msg, "**Exec:** `quiet`\n**Status:** Success");
}

#[test]
fn patch_details_add_update_delete() {
    let changes = vec![
        (
            "new.txt".to_string(),
            FileChange::Add {
                content: "a\nb".to_string(),
            },
        ),
        (
            "mod.txt".to_string(),
            FileChange::Update {
                unified_diff: "+++ b/mod.txt\n--- a/mod.txt\n+added\n-removed\n context\n"
                    .to_string(),
            },
        ),
        (
            "gone.txt".to_string(),
            FileChange::Delete {
                content: "one\ntwo\nthree\n".to_string(),
            },
        ),
    ];
    let (details, added, removed) = format_patch_details(&changes);
    assert_eq!(added, 3);
    assert_eq!(removed, 4);
    assert_eq!(
        details,
        "**New file: new.txt**\n```diff\n+a\n+b\n```\n\
         \n\
         **mod.txt**\n```diff\n+++ b/mod.txt\n--- a/mod.txt\n+added\n-removed\n context\n```\n\
         \n\
         **Delete file: gone.txt**\n"
    );
}

#[test]
fn patch_details_clip_at_one_hundred_lines() {
    let mut content = String::new();
    for i in 0..105 {
        content.push_str(&format!("l{i}\n"));
    }
    let changes = vec![("big.txt".to_string(), FileChange::Add { content })];
    let (details, added, removed) = format_patch_details(&changes);
    assert_eq!(added, 105);
    assert_eq!(removed, 0);
    assert!(details.contains("+l99\n"));
    assert!(!details.contains("+l100\n"));
    assert!(details.contains("... (5 more lines)\n```\n"));
}

#[test]
fn patch_note_lists_files_and_counts() {
    let changes = vec![(
        "only.txt".to_string(),
        FileChange::Add {
            content: "x\n".to_string(),
        },
    )];
    let note = format_patch_note(&changes);
    assert_eq!(
        note,
        "\u{270f}\u{fe0f} Applying patch to 1 file (+1 -0)\n  \u{2514} only.txt\n\n\
         **New file: only.txt**\n```diff\n+x\n```\n"
    );
}

#[test]
fn mcp_notes_cover_both_outcomes() {
    let inv = McpInvocation {
        server: "files".to_string(),
        tool: "read".to_string(),
        arguments: Some("{\"path\":\"a\"}".to_string()),
    };
    assert_eq!(
        format_mcp_begin_note(&inv),
        "**Tool:** files.read({\"path\":\"a\"})\n**Status:** Running"
    );
    let ok = Ok(McpToolResult { is_error: None });
    assert_eq!(
        format_mcp_end_note(&inv, &ok),
        "**Tool:** files.read({\"path\":\"a\"})\n**Status:** Success"
    );
    let flagged = Ok(McpToolResult {
        is_error: Some(true),
    });
    assert_eq!(
        format_mcp_end_note(&inv, &flagged),
        "**Tool:** files.read({\"path\":\"a\"})\n**Status:** Failed"
    );
    let failed: Result<McpToolResult, String> = Err("boom".to_string());
    assert_eq!(
        format_mcp_end_note(&inv, &failed),
        "**Tool:** files.read({\"path\":\"a\"})\n**Status:** Failed"
    );
}

#[test]
fn mcp_note_without_arguments() {
    let inv = McpInvocation {
        server: "sys".to_string(),
        tool: "ping".to_string(),
        arguments: None,
    };
    assert_eq!(
        format_mcp_begin_note(&inv),
        "**Tool:** sys.ping\n**Status:** Running"
    );
}
