//! Markdown notes for change notifications: executed commands, applied
//! patches, tool calls, and approval prompts with numbered options.

use vstd::prelude::*;

use crate::diff::spec_plus_line;
use crate::text::{
    append_chars, chars_to_string, clone_chars, join_strings, lemma_terminated_push,
    push_dec_i64, push_dec_u64, push_str_chars, push_text_line, sat_add, seq_views, spec_dec,
    spec_dec_i64, spec_join, spec_lines, spec_sat_add, spec_starts_with, spec_terminated,
    spec_trim, spec_utf8_len, split_lines, str_to_chars, trim_chars, utf8_len,
};

verus! {

/// What running one command produced.
pub struct CommandOutput {
    /// The process's exit code.
    pub exit_code: i64,
    /// The command's output, already rendered for display.
    pub formatted_output: String,
}

/// One file's part of a proposed patch.
pub enum FileChange {
    /// A file to be created with this content.
    Add { content: String },
    /// A file to be rewritten, described by a unified diff.
    Update { unified_diff: String },
    /// A file to be deleted, with the content that disappears.
    Delete { content: String },
}

/// One tool call: a server, a tool, and its arguments already rendered as
/// JSON text.
pub struct McpInvocation {
    /// The server the tool lives on.
    pub server: String,
    /// The tool's name.
    pub tool: String,
    /// The call's arguments as JSON text, if any were given.
    pub arguments: Option<String>,
}

/// The outcome a tool call reports.
pub struct McpToolResult {
    /// The tool's own error flag; absent counts as success.
    pub is_error: Option<bool>,
}

/// The view of an optional borrowed string.
pub open spec fn opt_text_view(s: Option<&str>) -> Option<Seq<char>> {
    match s {
        Some(v) => Some(v@),
        None => None,
    }
}

/// The view of an optional owned string.
pub open spec fn opt_string_view(s: Option<String>) -> Option<Seq<char>> {
    match s {
        Some(v) => Some(v@),
        None => None,
    }
}

/// The text of an exec approval request: the reason (or a stock phrase),
/// the space-joined command in a code fence, and the numbered options.
pub open spec fn spec_exec_approval_request(
    command: Seq<Seq<char>>,
    reason: Option<Seq<char>>,
) -> Seq<char> {
    "**Execute command?**\n\n"@ + (match reason {
        Some(r) => r,
        None => "Agent wants to execute a command"@,
    }) + "\n\n```bash\n"@ + spec_join(command, " "@)
        + "\n```\n\n[OPTIONS]\n1. Yes\n2. Always\n3. No, provide feedback\n[/OPTIONS]"@
}

/// Exact runtime counterpart of [`spec_exec_approval_request`].
pub fn format_exec_approval_request(command: &Vec<String>, reason: Option<&str>) -> (r: String)
    ensures
        r@ == spec_exec_approval_request(
            command@.map_values(|p: String| p@),
            opt_text_view(reason),
        ),
{
    let mut out = str_to_chars("**Execute command?**\n\n");
    match reason {
        Some(s) => {
            push_str_chars(&mut out, s);
        },
        None => {
            push_str_chars(&mut out, "Agent wants to execute a command");
        },
    }
    push_str_chars(&mut out, "\n\n```bash\n");
    let cmd = join_strings(command, " ");
    append_chars(&mut out, &cmd);
    push_str_chars(
        &mut out,
        "\n```\n\n[OPTIONS]\n1. Yes\n2. Always\n3. No, provide feedback\n[/OPTIONS]",
    );
    let r = chars_to_string(&out);
    assert(r@ =~= spec_exec_approval_request(
        command@.map_values(|p: String| p@),
        opt_text_view(reason),
    ));
    r
}

/// The text of a patch approval request: a summary of the touched files and
/// line counts, the optional write-access grant notice, the optional
/// reason, the optional diff details, and the numbered options.
pub open spec fn spec_patch_approval_request(
    file_count: nat,
    added: nat,
    removed: nat,
    reason: Option<Seq<char>>,
    grant_root: Option<Seq<char>>,
    patch_details: Option<Seq<char>>,
) -> Seq<char> {
    let head = "**Proposed patch to "@ + spec_dec(file_count) + " file"@ + (if file_count == 1 {
        Seq::<char>::empty()
    } else {
        "s"@
    }) + " (+"@ + spec_dec(added) + " -"@ + spec_dec(removed) + ")**"@;
    let grant = match grant_root {
        Some(root) => "\n\nThis will grant write access to "@ + root
            + " for the remainder of this session."@,
        None => Seq::<char>::empty(),
    };
    let why = match reason {
        Some(r) => "\n\n"@ + r,
        None => Seq::<char>::empty(),
    };
    let details = match patch_details {
        Some(d) => if d.len() > 0 {
            "\n\n"@ + d
        } else {
            Seq::<char>::empty()
        },
        None => Seq::<char>::empty(),
    };
    head + grant + why + details
        + "\n\n**Apply changes?**\n\n[OPTIONS]\n1. Yes\n2. No, provide feedback\n[/OPTIONS]"@
}

/// Exact runtime counterpart of [`spec_patch_approval_request`].
pub fn format_patch_approval_request(
    file_count: usize,
    added_lines: usize,
    removed_lines: usize,
    reason: Option<&str>,
    grant_root: Option<&str>,
    patch_details: Option<&str>,
) -> (r: String)
    ensures
        r@ == spec_patch_approval_request(
            file_count as nat,
            added_lines as nat,
            removed_lines as nat,
            opt_text_view(reason),
            opt_text_view(grant_root),
            opt_text_view(patch_details),
        ),
{
    let mut out = str_to_chars("**Proposed patch to ");
    crate::text::push_dec_u64(&mut out, file_count as u64);
    push_str_chars(&mut out, " file");
    if file_count != 1 {
        push_str_chars(&mut out, "s");
    }
    push_str_chars(&mut out, " (+");
    crate::text::push_dec_u64(&mut out, added_lines as u64);
    push_str_chars(&mut out, " -");
    crate::text::push_dec_u64(&mut out, removed_lines as u64);
    push_str_chars(&mut out, ")**");
    match grant_root {
        Some(root) => {
            push_str_chars(&mut out, "\n\nThis will grant write access to ");
            push_str_chars(&mut out, root);
            push_str_chars(&mut out, " for the remainder of this session.");
        },
        None => {},
    }
    match reason {
        Some(r) => {
            push_str_chars(&mut out, "\n\n");
            push_str_chars(&mut out, r);
        },
        None => {},
    }
    match patch_details {
        Some(d) => {
            let dc = str_to_chars(d);
            if dc.len() > 0 {
                push_str_chars(&mut out, "\n\n");
                append_chars(&mut out, &dc);
            }
        },
        None => {},
    }
    push_str_chars(
        &mut out,
        "\n\n**Apply changes?**\n\n[OPTIONS]\n1. Yes\n2. No, provide feedback\n[/OPTIONS]",
    );
    let r = chars_to_string(&out);
    assert(r@ =~= spec_patch_approval_request(
        file_count as nat,
        added_lines as nat,
        removed_lines as nat,
        opt_text_view(reason),
        opt_text_view(grant_root),
        opt_text_view(patch_details),
    ));
    r
}

/// The display form of a tool call: `server.tool`, with the rendered
/// arguments in parentheses when there are any.
pub open spec fn spec_mcp_invocation(
    server: Seq<char>,
    tool: Seq<char>,
    args: Option<Seq<char>>,
) -> Seq<char> {
    let a = match args {
        Some(s) => s,
        None => Seq::<char>::empty(),
    };
    if a.len() == 0 {
        server + "."@ + tool
    } else {
        server + "."@ + tool + "("@ + a + ")"@
    }
}

fn format_mcp_invocation(invocation: &McpInvocation) -> (r: Vec<char>)
    ensures
        r@ == spec_mcp_invocation(
            invocation.server@,
            invocation.tool@,
            opt_string_view(invocation.arguments),
        ),
{
    let mut out = str_to_chars(invocation.server.as_str());
    push_str_chars(&mut out, ".");
    push_str_chars(&mut out, invocation.tool.as_str());
    let empty_args = match &invocation.arguments {
        Some(a) => a.as_str().unicode_len() == 0,
        None => true,
    };
    if !empty_args {
        match &invocation.arguments {
            Some(a) => {
                push_str_chars(&mut out, "(");
                push_str_chars(&mut out, a.as_str());
                push_str_chars(&mut out, ")");
            },
            None => {},
        }
    }
    assert(out@ =~= spec_mcp_invocation(
        invocation.server@,
        invocation.tool@,
        opt_string_view(invocation.arguments),
    ));
    out
}

/// The note announcing a started tool call.
pub open spec fn spec_mcp_begin_note(
    server: Seq<char>,
    tool: Seq<char>,
    args: Option<Seq<char>>,
) -> Seq<char> {
    "**Tool:** "@ + spec_mcp_invocation(server, tool, args) + "\n**Status:** Running"@
}

/// Exact runtime counterpart of [`spec_mcp_begin_note`].
pub fn format_mcp_begin_note(invocation: &McpInvocation) -> (r: String)
    ensures
        r@ == spec_mcp_begin_note(
            invocation.server@,
            invocation.tool@,
            opt_string_view(invocation.arguments),
        ),
{
    let mut out = str_to_chars("**Tool:** ");
    let inv = format_mcp_invocation(invocation);
    append_chars(&mut out, &inv);
    push_str_chars(&mut out, "\n**Status:** Running");
    let r = chars_to_string(&out);
    assert(r@ =~= spec_mcp_begin_note(
        invocation.server@,
        invocation.tool@,
        opt_string_view(invocation.arguments),
    ));
    r
}

/// Did the tool call succeed?  An error result or a set error flag counts
/// as failure; an absent flag as success.
pub open spec fn spec_tool_ok(result: Result<McpToolResult, String>) -> bool {
    result matches Ok(t) && !(t.is_error matches Some(true))
}

/// The note announcing a finished tool call.
pub open spec fn spec_mcp_end_note(
    server: Seq<char>,
    tool: Seq<char>,
    args: Option<Seq<char>>,
    ok: bool,
) -> Seq<char> {
    "**Tool:** "@ + spec_mcp_invocation(server, tool, args) + "\n**Status:** "@ + (if ok {
        "Success"@
    } else {
        "Failed"@
    })
}

/// Exact runtime counterpart of [`spec_mcp_end_note`].
pub fn format_mcp_end_note(invocation: &McpInvocation, result: &Result<McpToolResult, String>) -> (r:
    String)
    ensures
        r@ == spec_mcp_end_note(
            invocation.server@,
            invocation.tool@,
            opt_string_view(invocation.arguments),
            spec_tool_ok(*result),
        ),
{
    let ok = match result {
        Ok(t) => match t.is_error {
            Some(e) => !e,
            None => true,
        },
        Err(_) => false,
    };
    let mut out = str_to_chars("**Tool:** ");
    let inv = format_mcp_invocation(invocation);
    append_chars(&mut out, &inv);
    push_str_chars(&mut out, "\n**Status:** ");
    if ok {
        push_str_chars(&mut out, "Success");
    } else {
        push_str_chars(&mut out, "Failed");
    }
    let r = chars_to_string(&out);
    assert(r@ =~= spec_mcp_end_note(
        invocation.server@,
        invocation.tool@,
        opt_string_view(invocation.arguments),
        spec_tool_ok(*result),
    ));
    r
}

/// A display line clipped to two hundred characters, with a space and an
/// ellipsis marking the cut.
pub open spec fn spec_clip(l: Seq<char>) -> Seq<char> {
    if l.len() > 200 {
        l.subrange(0, 200) + " …"@
    } else {
        l
    }
}

fn clip_line(line: &Vec<char>) -> (r: Vec<char>)
    ensures
        r@ == spec_clip(line@),
        r@.len() <= 202,
{
    proof {
        reveal_strlit(" …");
    }
    if line.len() > 200 {
        let mut out: Vec<char> = Vec::new();
        let mut i: usize = 0;
        while i < 200
            invariant
                0 <= i <= 200 < line@.len(),
                out@ == line@.subrange(0, i as int),
            decreases 200 - i,
        {
            out.push(line[i]);
            assert(out@ =~= line@.subrange(0, i + 1));
            i += 1;
        }
        push_str_chars(&mut out, " …");
        assert(out@ =~= spec_clip(line@));
        out
    } else {
        clone_chars(line)
    }
}

/// The output preview built from `ls`, having already shown `shown` lines
/// and spent `total` bytes: each line clipped and appended while at most
/// twenty lines are shown and two thousand bytes spent, with the text so
/// far, the lines shown, and whether the byte budget cut the preview short.
pub open spec fn spec_preview(ls: Seq<Seq<char>>, shown: nat, total: nat) -> (
    Seq<char>,
    nat,
    bool,
)
    decreases ls.len(),
{
    if ls.len() == 0 {
        (Seq::<char>::empty(), shown, false)
    } else if shown >= 20 {
        (Seq::<char>::empty(), shown, false)
    } else {
        let line = spec_clip(ls.first());
        let line_len = spec_utf8_len(line) + 1;
        if total + line_len > 2000 {
            (Seq::<char>::empty(), shown, true)
        } else {
            let rest = spec_preview(ls.drop_first(), shown + 1, total + line_len);
            (line + seq!['\n'] + rest.0, rest.1, rest.2)
        }
    }
}

fn preview_from(lines: &Vec<Vec<char>>, i: usize, shown: usize, total: usize) -> (r: (
    Vec<char>,
    usize,
    bool,
))
    requires
        i <= lines@.len(),
        shown <= 20,
        total <= 2000,
    ensures
        ({
            let s = spec_preview(
                seq_views(lines@).subrange(i as int, lines@.len() as int),
                shown as nat,
                total as nat,
            );
            r.0@ == s.0 && r.1 as nat == s.1 && r.2 == s.2
        }),
    decreases lines@.len() - i,
{
    let ghost tail = seq_views(lines@).subrange(i as int, lines@.len() as int);
    if i == lines.len() {
        assert(tail.len() == 0);
        return (Vec::new(), shown, false);
    }
    if shown >= 20 {
        return (Vec::new(), shown, false);
    }
    proof {
        assert(tail.first() == lines@[i as int]@);
        assert(tail.drop_first() =~= seq_views(lines@).subrange(i + 1, lines@.len() as int));
    }
    let line = clip_line(&lines[i]);
    proof {
        crate::text::lemma_utf8_len_bound(line@);
    }
    let ll = utf8_len(&line) + 1;
    if total > 2000 - ll {
        return (Vec::new(), shown, true);
    }
    let rest = preview_from(lines, i + 1, shown + 1, total + ll);
    let mut out = line;
    out.push('\n');
    append_chars(&mut out, &rest.0);
    proof {
        assert(out@ =~= spec_clip(tail.first()) + seq!['\n'] + rest.0@);
    }
    (out, rest.1, rest.2)
}

/// The note for an executed command: the space-joined command, a status
/// line carrying the exit code, and a clipped, budgeted output preview in a
/// code fence, with a truncation marker when any of the output was cut.
pub open spec fn spec_exec_note(
    command: Seq<Seq<char>>,
    exit_code: int,
    out_text: Seq<char>,
) -> Seq<char> {
    let status = if exit_code == 0 {
        "Success"@
    } else {
        "Failed (exit "@ + spec_dec_i64(exit_code) + ")"@
    };
    let head = "**Exec:** `"@ + spec_join(command, " "@) + "`\n**Status:** "@ + status;
    let p = spec_preview(spec_lines(out_text), 0, 0);
    if spec_trim(p.0).len() == 0 {
        head
    } else {
        let trunc = if p.2 || p.1 < spec_lines(out_text).len() {
            "… (truncated)\n"@
        } else {
            Seq::<char>::empty()
        };
        head + "\n\n```text\n"@ + p.0 + trunc + "```"@
    }
}

/// Exact runtime counterpart of [`spec_exec_note`].
pub fn format_exec_note(command: &Vec<String>, output: &CommandOutput) -> (r: String)
    ensures
        r@ == spec_exec_note(
            command@.map_values(|p: String| p@),
            output.exit_code as int,
            output.formatted_output@,
        ),
{
    let mut head = str_to_chars("**Exec:** `");
    let cmd = join_strings(command, " ");
    append_chars(&mut head, &cmd);
    push_str_chars(&mut head, "`\n**Status:** ");
    if output.exit_code == 0 {
        push_str_chars(&mut head, "Success");
    } else {
        push_str_chars(&mut head, "Failed (exit ");
        push_dec_i64(&mut head, output.exit_code);
        push_str_chars(&mut head, ")");
    }
    let out_chars = str_to_chars(output.formatted_output.as_str());
    let lines = split_lines(&out_chars);
    proof {
        assert(seq_views(lines@).subrange(0, lines@.len() as int) =~= seq_views(lines@));
    }
    let (preview, shown, truncated_by_chars) = preview_from(&lines, 0, 0, 0);
    let pt = trim_chars(&preview);
    if pt.len() == 0 {
        let r = chars_to_string(&head);
        assert(r@ =~= spec_exec_note(
            command@.map_values(|p: String| p@),
            output.exit_code as int,
            output.formatted_output@,
        ));
        return r;
    }
    let mut msg = head;
    push_str_chars(&mut msg, "\n\n```text\n");
    append_chars(&mut msg, &preview);
    if truncated_by_chars || shown < lines.len() {
        push_str_chars(&mut msg, "… (truncated)\n");
    }
    push_str_chars(&mut msg, "```");
    let r = chars_to_string(&msg);
    assert(r@ =~= spec_exec_note(
        command@.map_values(|p: String| p@),
        output.exit_code as int,
        output.formatted_output@,
    ));
    r
}

/// Does a diff line add content?  A `+` line that is not a `+++` header.
pub open spec fn spec_is_added_line(l: Seq<char>) -> bool {
    l.len() > 0 && l[0] == '+' && !spec_starts_with(l, "+++"@)
}

/// Does a diff line remove content?  A `-` line that is not a `---` header.
pub open spec fn spec_is_removed_line(l: Seq<char>) -> bool {
    l.len() > 0 && l[0] == '-' && !spec_starts_with(l, "---"@)
}

/// How many lines of `ls` add content.
pub open spec fn spec_count_added(ls: Seq<Seq<char>>) -> nat
    decreases ls.len(),
{
    if ls.len() == 0 {
        0
    } else {
        spec_count_added(ls.drop_last()) + if spec_is_added_line(ls.last()) {
            1nat
        } else {
            0nat
        }
    }
}

/// How many lines of `ls` remove content.
pub open spec fn spec_count_removed(ls: Seq<Seq<char>>) -> nat
    decreases ls.len(),
{
    if ls.len() == 0 {
        0
    } else {
        spec_count_removed(ls.drop_last()) + if spec_is_removed_line(ls.last()) {
            1nat
        } else {
            0nat
        }
    }
}

fn is_added_line(l: &Vec<char>) -> (r: bool)
    ensures
        r == spec_is_added_line(l@),
{
    proof {
        reveal_strlit("+++");
    }
    if l.len() == 0 || l[0] != '+' {
        return false;
    }
    let header = crate::text::starts_with_chars(l, &str_to_chars("+++"));
    !header
}

fn is_removed_line(l: &Vec<char>) -> (r: bool)
    ensures
        r == spec_is_removed_line(l@),
{
    proof {
        reveal_strlit("---");
    }
    if l.len() == 0 || l[0] != '-' {
        return false;
    }
    let header = crate::text::starts_with_chars(l, &str_to_chars("---"));
    !header
}

fn count_diff_lines(lines: &Vec<Vec<char>>) -> (r: (usize, usize))
    ensures
        r.0 as nat == spec_count_added(seq_views(lines@)),
        r.1 as nat == spec_count_removed(seq_views(lines@)),
        r.0 <= lines@.len() && r.1 <= lines@.len(),
{
    let ghost ls = seq_views(lines@);
    let mut added: usize = 0;
    let mut removed: usize = 0;
    let mut i: usize = 0;
    proof {
        assert(ls.subrange(0, 0) =~= Seq::<Seq<char>>::empty());
    }
    while i < lines.len()
        invariant
            0 <= i <= lines@.len(),
            ls == seq_views(lines@),
            added as nat == spec_count_added(ls.subrange(0, i as int)),
            removed as nat == spec_count_removed(ls.subrange(0, i as int)),
            added <= i && removed <= i,
        decreases lines.len() - i,
    {
        proof {
            assert(ls.subrange(0, i + 1).drop_last() =~= ls.subrange(0, i as int));
            assert(ls.subrange(0, i + 1).last() == ls[i as int]);
            assert(lines@[i as int]@ == ls[i as int]);
        }
        if is_added_line(&lines[i]) {
            added += 1;
        }
        if is_removed_line(&lines[i]) {
            removed += 1;
        }
        i += 1;
    }
    assert(ls.subrange(0, lines@.len() as int) =~= ls);
    (added, removed)
}

/// The `+`-prefixed, line-feed-terminated rendering of content lines.
pub open spec fn spec_plus_block(ls: Seq<Seq<char>>) -> Seq<char>
    decreases ls.len(),
{
    if ls.len() == 0 {
        Seq::empty()
    } else {
        spec_plus_block(ls.drop_last()) + spec_plus_line(ls.last()) + seq!['\n']
    }
}

/// The marker closing a clipped diff listing: how many lines were not
/// shown.
pub open spec fn spec_overflow_note(n: nat) -> Seq<char> {
    if n > 100 {
        "... ("@ + spec_dec((n - 100) as nat) + " more lines)\n"@
    } else {
        Seq::<char>::empty()
    }
}

/// How many of `n` lines a diff listing shows: at most one hundred.
pub open spec fn spec_shown(n: nat) -> nat {
    if n > 100 {
        100
    } else {
        n
    }
}

/// One file's section of the patch details, with the line counts it
/// contributes: an added file lists its content `+`-prefixed, an updated
/// file lists its unified diff verbatim, both clipped to one hundred lines;
/// a deleted file contributes only a caption.
pub open spec fn spec_change_section(path: Seq<char>, change: FileChange) -> (
    Seq<char>,
    nat,
    nat,
) {
    match change {
        FileChange::Add { content } => {
            let ls = spec_lines(content@);
            let shown = spec_shown(ls.len()) as int;
            let section = "**New file: "@ + path + "**\n"@ + "```diff\n"@ + spec_plus_block(
                ls.subrange(0, shown),
            ) + spec_overflow_note(ls.len()) + "```\n"@;
            (section, ls.len(), 0nat)
        },
        FileChange::Update { unified_diff } => {
            let ls = spec_lines(unified_diff@);
            let shown = spec_shown(ls.len()) as int;
            let section = "**"@ + path + "**\n"@ + "```diff\n"@ + spec_terminated(
                ls.subrange(0, shown),
            ) + spec_overflow_note(ls.len()) + "```\n"@;
            (section, spec_count_added(ls), spec_count_removed(ls))
        },
        FileChange::Delete { content } => {
            ("**Delete file: "@ + path + "**\n"@, 0nat, spec_lines(content@).len())
        },
    }
}

/// The patch details for a list of file changes: the sections separated by
/// one blank line, and the total added and removed line counts, each sum
/// stopping at the largest machine size.
pub open spec fn spec_patch_details(cs: Seq<(String, FileChange)>) -> (Seq<char>, nat, nat)
    decreases cs.len(),
{
    if cs.len() == 0 {
        (Seq::<char>::empty(), 0nat, 0nat)
    } else {
        let init = spec_patch_details(cs.drop_last());
        let section = spec_change_section(cs.last().0@, cs.last().1);
        let text = if init.0.len() == 0 {
            init.0 + section.0
        } else {
            init.0 + seq!['\n'] + section.0
        };
        (text, spec_sat_add(init.1, section.1), spec_sat_add(init.2, section.2))
    }
}

fn push_overflow_note(out: &mut Vec<char>, n: usize)
    ensures
        final(out)@ == old(out)@ + spec_overflow_note(n as nat),
{
    if n > 100 {
        push_str_chars(out, "... (");
        push_dec_u64(out, (n - 100) as u64);
        push_str_chars(out, " more lines)\n");
        assert(out@ =~= old(out)@ + spec_overflow_note(n as nat));
    } else {
        assert(out@ =~= old(out)@ + spec_overflow_note(n as nat));
    }
}

fn change_section(path: &String, change: &FileChange) -> (r: (Vec<char>, usize, usize))
    ensures
        ({
            let s = spec_change_section(path@, *change);
            r.0@ == s.0 && r.1 as nat == spec_sat_add(0, s.1) && r.2 as nat == spec_sat_add(
                0,
                s.2,
            )
        }),
{
    match change {
        FileChange::Add { content } => {
            let cc = str_to_chars(content.as_str());
            let lines = split_lines(&cc);
            let ghost ls = spec_lines(content@);
            let total = lines.len();
            let shown: usize = if total > 100 {
                100
            } else {
                total
            };
            let mut out = str_to_chars("**New file: ");
            push_str_chars(&mut out, path.as_str());
            push_str_chars(&mut out, "**\n");
            push_str_chars(&mut out, "```diff\n");
            let ghost base = out@;
            let mut i: usize = 0;
            proof {
                assert(out@ =~= base + spec_plus_block(ls.subrange(0, 0)));
            }
            while i < shown
                invariant
                    0 <= i <= shown <= lines@.len(),
                    seq_views(lines@) == ls,
                    out@ == base + spec_plus_block(ls.subrange(0, i as int)),
                decreases shown - i,
            {
                proof {
                    assert(ls.subrange(0, i + 1).drop_last() =~= ls.subrange(0, i as int));
                    assert(ls.subrange(0, i + 1).last() == ls[i as int]);
                    assert(lines@[i as int]@ == ls[i as int]);
                }
                out.push('+');
                append_chars(&mut out, &lines[i]);
                out.push('\n');
                assert(out@ =~= base + spec_plus_block(ls.subrange(0, i + 1)));
                i += 1;
            }
            push_overflow_note(&mut out, total);
            push_str_chars(&mut out, "```\n");
            proof {
                let s = spec_change_section(path@, *change);
                assert(out@ =~= s.0);
            }
            (out, total, 0)
        },
        FileChange::Update { unified_diff } => {
            let dc = str_to_chars(unified_diff.as_str());
            let lines = split_lines(&dc);
            let ghost ls = spec_lines(unified_diff@);
            let total = lines.len();
            let shown: usize = if total > 100 {
                100
            } else {
                total
            };
            let mut out = str_to_chars("**");
            push_str_chars(&mut out, path.as_str());
            push_str_chars(&mut out, "**\n");
            push_str_chars(&mut out, "```diff\n");
            let ghost base = out@;
            let ghost mut done: Seq<Seq<char>> = Seq::empty();
            let mut i: usize = 0;
            proof {
                assert(out@ =~= base + spec_terminated(done));
            }
            while i < shown
                invariant
                    0 <= i <= shown <= lines@.len(),
                    seq_views(lines@) == ls,
                    done == ls.subrange(0, i as int),
                    out@ == base + spec_terminated(done),
                decreases shown - i,
            {
                proof {
                    assert(lines@[i as int]@ == ls[i as int]);
                    lemma_terminated_push(done, ls[i as int]);
                    done = done.push(ls[i as int]);
                    assert(done =~= ls.subrange(0, i + 1));
                }
                push_text_line(&mut out, &lines[i]);
                i += 1;
            }
            push_overflow_note(&mut out, total);
            push_str_chars(&mut out, "```\n");
            let counts = count_diff_lines(&lines);
            proof {
                let s = spec_change_section(path@, *change);
                assert(out@ =~= s.0);
            }
            (out, counts.0, counts.1)
        },
        FileChange::Delete { content } => {
            let cc = str_to_chars(content.as_str());
            let lines = split_lines(&cc);
            let mut out = str_to_chars("**Delete file: ");
            push_str_chars(&mut out, path.as_str());
            push_str_chars(&mut out, "**\n");
            proof {
                let s = spec_change_section(path@, *change);
                assert(out@ =~= s.0);
                assert(lines@.len() == spec_lines(content@).len()) by {
                    assert(seq_views(lines@) == spec_lines(content@));
                }
            }
            (out, 0, lines.len())
        },
    }
}

/// Exact runtime counterpart of [`spec_patch_details`]: the rendered
/// sections and the total added and removed line counts.
pub fn format_patch_details(changes: &Vec<(String, FileChange)>) -> (r: (String, usize, usize))
    ensures
        ({
            let s = spec_patch_details(changes@);
            r.0@ == s.0 && r.1 as nat == s.1 && r.2 as nat == s.2
        }),
{
    let mut out: Vec<char> = Vec::new();
    let mut added: usize = 0;
    let mut removed: usize = 0;
    let mut i: usize = 0;
    proof {
        let s0 = spec_patch_details(changes@.subrange(0, 0));
        assert(out@ =~= s0.0);
    }
    while i < changes.len()
        invariant
            0 <= i <= changes@.len(),
            ({
                let s = spec_patch_details(changes@.subrange(0, i as int));
                out@ == s.0 && added as nat == s.1 && removed as nat == s.2
            }),
        decreases changes.len() - i,
    {
        proof {
            assert(changes@.subrange(0, i + 1).drop_last() =~= changes@.subrange(0, i as int));
            assert(changes@.subrange(0, i + 1).last() == changes@[i as int]);
        }
        let section = change_section(&changes[i].0, &changes[i].1);
        if out.len() > 0 {
            out.push('\n');
        }
        append_chars(&mut out, &section.0);
        added = sat_add(added, section.1);
        removed = sat_add(removed, section.2);
        proof {
            let s = spec_patch_details(changes@.subrange(0, i + 1));
            assert(out@ =~= s.0);
            assert(added as nat == s.1 && removed as nat == s.2);
        }
        i += 1;
    }
    assert(changes@.subrange(0, changes@.len() as int) =~= changes@);
    (chars_to_string(&out), added, removed)
}

/// The caption lines naming each touched file.
pub open spec fn spec_file_list(cs: Seq<(String, FileChange)>) -> Seq<char>
    decreases cs.len(),
{
    if cs.len() == 0 {
        Seq::empty()
    } else {
        spec_file_list(cs.drop_last()) + "  └ "@ + cs.last().0@ + "\n"@
    }
}

/// The note for an applied patch: a summary line with the file and line
/// counts, one caption per file, and the patch details after a blank line
/// when there are any.
pub open spec fn spec_patch_note(cs: Seq<(String, FileChange)>) -> Seq<char> {
    let d = spec_patch_details(cs);
    let head = "✏️ Applying patch to "@ + spec_dec(cs.len()) + " file"@ + (if cs.len() == 1 {
        Seq::<char>::empty()
    } else {
        "s"@
    }) + " (+"@ + spec_dec(d.1) + " -"@ + spec_dec(d.2) + ")\n"@;
    head + spec_file_list(cs) + (if d.0.len() == 0 {
        Seq::<char>::empty()
    } else {
        "\n"@ + d.0
    })
}

/// Exact runtime counterpart of [`spec_patch_note`].
pub fn format_patch_note(changes: &Vec<(String, FileChange)>) -> (r: String)
    ensures
        r@ == spec_patch_note(changes@),
{
    let details = format_patch_details(changes);
    let details_chars = str_to_chars(details.0.as_str());
    let mut out = str_to_chars("✏️ Applying patch to ");
    push_dec_u64(&mut out, changes.len() as u64);
    push_str_chars(&mut out, " file");
    if changes.len() != 1 {
        push_str_chars(&mut out, "s");
    }
    push_str_chars(&mut out, " (+");
    push_dec_u64(&mut out, details.1 as u64);
    push_str_chars(&mut out, " -");
    push_dec_u64(&mut out, details.2 as u64);
    push_str_chars(&mut out, ")\n");
    let ghost base = out@;
    let mut i: usize = 0;
    proof {
        assert(out@ =~= base + spec_file_list(changes@.subrange(0, 0)));
    }
    while i < changes.len()
        invariant
            0 <= i <= changes@.len(),
            out@ == base + spec_file_list(changes@.subrange(0, i as int)),
        decreases changes.len() - i,
    {
        proof {
            assert(changes@.subrange(0, i + 1).drop_last() =~= changes@.subrange(0, i as int));
            assert(changes@.subrange(0, i + 1).last() == changes@[i as int]);
        }
        push_str_chars(&mut out, "  └ ");
        push_str_chars(&mut out, changes[i].0.as_str());
        push_str_chars(&mut out, "\n");
        assert(out@ =~= base + spec_file_list(changes@.subrange(0, i + 1)));
        i += 1;
    }
    proof {
        assert(changes@.subrange(0, changes@.len() as int) =~= changes@);
    }
    if details_chars.len() > 0 {
        push_str_chars(&mut out, "\n");
        append_chars(&mut out, &details_chars);
    }
    let r = chars_to_string(&out);
    assert(r@ =~= spec_patch_note(changes@));
    r
}

} // verus!
