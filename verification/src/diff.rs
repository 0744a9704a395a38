//! Pure diff synthesis: worktree exclusion patterns, the untracked-file
//! filter, hand-built "new file" blocks, and combined-diff assembly.
//!
//! Everything here is a function from values to values; the tracker feeds it
//! the version-control tool's output and the file system's answers.

use vstd::prelude::*;

use crate::text::{
    append_chars, chars_to_string, lemma_terminated_push, push_dec_u64, push_str_chars,
    push_text_line, seq_views, spec_dec, spec_lines, spec_starts_with, spec_terminated,
    spec_trim, split_lines, starts_with_chars, str_to_chars, trim_chars,
};

verus! {

/// The exclusion pattern a worktree-list line contributes: for a line
/// `worktree <p>` where `<p>` lies strictly under `dir`, the pattern
/// `:(exclude)<rel>` covering that subtree; nothing for any other line.
pub open spec fn spec_exclusion_of(line: Seq<char>, dir: Seq<char>) -> Option<Seq<char>> {
    if spec_starts_with(line, "worktree "@) {
        let p = spec_trim(line.subrange("worktree "@.len() as int, line.len() as int));
        if p.len() >= dir.len() + 2 && p.subrange(0, dir.len() as int) == dir && p[dir.len() as int]
            == '/' {
            Some(":(exclude)"@ + p.subrange(dir.len() as int + 1, p.len() as int))
        } else {
            None
        }
    } else {
        None
    }
}

/// The exclusion patterns of a list of worktree-list lines, in order.
pub open spec fn spec_exclusions_lines(ls: Seq<Seq<char>>, dir: Seq<char>) -> Seq<Seq<char>>
    decreases ls.len(),
{
    if ls.len() == 0 {
        Seq::empty()
    } else {
        let init = spec_exclusions_lines(ls.drop_last(), dir);
        match spec_exclusion_of(ls.last(), dir) {
            Some(p) => init.push(p),
            None => init,
        }
    }
}

/// The exclusion patterns that `worktree list --porcelain` output `raw`
/// yields for a tracker working in `dir`.
pub open spec fn spec_exclusions(raw: Seq<char>, dir: Seq<char>) -> Seq<Seq<char>> {
    spec_exclusions_lines(spec_lines(raw), dir)
}

/// Exact runtime counterpart of [`spec_exclusion_of`].
pub fn exclusion_of(line: &Vec<char>, dir: &Vec<char>) -> (r: Option<Vec<char>>)
    ensures
        match r {
            Some(p) => spec_exclusion_of(line@, dir@) == Some(p@),
            None => spec_exclusion_of(line@, dir@) is None,
        },
{
    let prefix = str_to_chars("worktree ");
    if !starts_with_chars(line, &prefix) {
        return None;
    }
    let mut rest: Vec<char> = Vec::new();
    let mut i: usize = prefix.len();
    while i < line.len()
        invariant
            prefix@.len() <= i <= line@.len(),
            rest@ == line@.subrange(prefix@.len() as int, i as int),
        decreases line.len() - i,
    {
        rest.push(line[i]);
        assert(rest@ =~= line@.subrange(prefix@.len() as int, i + 1));
        i += 1;
    }
    assert(rest@ =~= line@.subrange(prefix@.len() as int, line@.len() as int));
    let p = trim_chars(&rest);
    if p.len() < dir.len() || p.len() - dir.len() < 2 {
        return None;
    }
    if !starts_with_chars(&p, dir) {
        return None;
    }
    if p[dir.len()] != '/' {
        return None;
    }
    let mut out = str_to_chars(":(exclude)");
    let mut j: usize = dir.len() + 1;
    let ghost base = out@;
    while j < p.len()
        invariant
            dir@.len() + 1 <= j <= p@.len(),
            out@ == base + p@.subrange(dir@.len() as int + 1, j as int),
        decreases p.len() - j,
    {
        out.push(p[j]);
        assert(out@ =~= base + p@.subrange(dir@.len() as int + 1, j + 1));
        j += 1;
    }
    assert(out@ =~= ":(exclude)"@ + p@.subrange(dir@.len() as int + 1, p@.len() as int));
    Some(out)
}

/// Exact runtime counterpart of [`spec_exclusions`].
pub fn worktree_exclusions(raw: &Vec<char>, dir: &Vec<char>) -> (r: Vec<Vec<char>>)
    ensures
        seq_views(r@) == spec_exclusions(raw@, dir@),
{
    let lines = split_lines(raw);
    let ghost ls = spec_lines(raw@);
    let mut out: Vec<Vec<char>> = Vec::new();
    let mut i: usize = 0;
    proof {
        assert(seq_views(out@) =~= spec_exclusions_lines(ls.subrange(0, 0), dir@));
    }
    while i < lines.len()
        invariant
            0 <= i <= lines@.len(),
            seq_views(lines@) == ls,
            seq_views(out@) == spec_exclusions_lines(ls.subrange(0, i as int), dir@),
        decreases lines.len() - i,
    {
        proof {
            assert(ls.subrange(0, i + 1).drop_last() =~= ls.subrange(0, i as int));
            assert(ls.subrange(0, i + 1).last() == ls[i as int]);
            assert(lines@[i as int]@ == ls[i as int]);
        }
        match exclusion_of(&lines[i], dir) {
            Some(p) => {
                out.push(p);
                proof {
                    assert(seq_views(out@) =~= seq_views(out@.drop_last()).push(out@.last()@));
                }
            },
            None => {},
        }
        i += 1;
    }
    assert(ls.subrange(0, lines@.len() as int) =~= ls);
    out
}

/// Does a file's timestamp prove it was created during the session?
pub open spec fn spec_keeps(ts: Option<u64>, start: u64) -> bool {
    ts matches Some(t) && t >= start
}

/// The view of a `(path, timestamp)` entry list.
pub open spec fn entry_views(es: Seq<(Vec<char>, Option<u64>)>) -> Seq<(Seq<char>, Option<u64>)> {
    es.map_values(|e: (Vec<char>, Option<u64>)| (e.0@, e.1))
}

/// The paths of the entries whose timestamp shows them created at or after
/// `start`, in order; an absent timestamp excludes the file.
pub open spec fn spec_new_files(es: Seq<(Seq<char>, Option<u64>)>, start: u64) -> Seq<Seq<char>>
    decreases es.len(),
{
    if es.len() == 0 {
        Seq::empty()
    } else {
        let init = spec_new_files(es.drop_last(), start);
        if spec_keeps(es.last().1, start) {
            init.push(es.last().0)
        } else {
            init
        }
    }
}

/// Exact runtime counterpart of [`spec_new_files`].
pub fn select_new_files(entries: &Vec<(Vec<char>, Option<u64>)>, start: u64) -> (r: Vec<
    Vec<char>,
>)
    ensures
        seq_views(r@) == spec_new_files(entry_views(entries@), start),
{
    let ghost es = entry_views(entries@);
    let mut out: Vec<Vec<char>> = Vec::new();
    let mut i: usize = 0;
    proof {
        assert(seq_views(out@) =~= spec_new_files(es.subrange(0, 0), start));
    }
    while i < entries.len()
        invariant
            0 <= i <= entries@.len(),
            es == entry_views(entries@),
            seq_views(out@) == spec_new_files(es.subrange(0, i as int), start),
        decreases entries.len() - i,
    {
        proof {
            assert(es.subrange(0, i + 1).drop_last() =~= es.subrange(0, i as int));
            assert(es.subrange(0, i + 1).last() == es[i as int]);
            assert(es[i as int] == (entries@[i as int].0@, entries@[i as int].1));
        }
        let keep = match entries[i].1 {
            Some(t) => t >= start,
            None => false,
        };
        if keep {
            let p = crate::text::clone_chars(&entries[i].0);
            out.push(p);
            proof {
                assert(seq_views(out@) =~= seq_views(out@.drop_last()).push(out@.last()@));
            }
        }
        i += 1;
    }
    assert(es.subrange(0, entries@.len() as int) =~= es);
    out
}

/// Does the content end in a line feed?  A file that does not gets the
/// conventional `\ No newline at end of file` marker.
pub open spec fn spec_ends_nl(c: Seq<char>) -> bool {
    c.len() > 0 && c.last() == '\n'
}

/// The `+`-prefixed form of one content line.
pub open spec fn spec_plus_line(l: Seq<char>) -> Seq<char> {
    seq!['+'] + l
}

/// The unified-diff hunk header announcing `n` added lines in a new file.
pub open spec fn spec_hunk_line(n: nat) -> Seq<char> {
    "@@ -0,0 +1,"@ + spec_dec(n) + " @@"@
}

/// The five header lines of a synthesized new-file diff.
pub open spec fn spec_header_lines(rel: Seq<char>) -> Seq<Seq<char>> {
    seq![
        "diff --git a/"@ + rel + " b/"@ + rel,
        "new file mode 100644"@,
        "index 0000000..0000000"@,
        "--- /dev/null"@,
        "+++ b/"@ + rel,
    ]
}

/// The lines of a synthesized new-file block: the header, the hunk header,
/// one `+` line per content line, the no-newline marker when the content
/// does not end in a line feed, and a closing blank separator line.  Content
/// that could not be read as text gets a one-line placeholder hunk.
pub open spec fn spec_block_lines(rel: Seq<char>, content: Option<Seq<char>>) -> Seq<Seq<char>> {
    match content {
        Some(c) => spec_header_lines(rel) + seq![spec_hunk_line(spec_lines(c).len())]
            + spec_lines(c).map_values(|l: Seq<char>| spec_plus_line(l)) + (if spec_ends_nl(c) {
            Seq::<Seq<char>>::empty()
        } else {
            seq!["\\ No newline at end of file"@]
        }) + seq![Seq::<char>::empty()],
        None => spec_header_lines(rel) + seq![
            "@@ -0,0 +1,1 @@"@,
            "+[Binary or unreadable file]"@,
            Seq::<char>::empty(),
        ],
    }
}

/// The text of a synthesized new-file block.
pub open spec fn spec_new_file_block(rel: Seq<char>, content: Option<Seq<char>>) -> Seq<char> {
    spec_terminated(spec_block_lines(rel, content))
}

/// The view of optional file content.
pub open spec fn opt_chars_view(c: Option<Vec<char>>) -> Option<Seq<char>> {
    match c {
        Some(v) => Some(v@),
        None => None,
    }
}

/// Exact runtime counterpart of [`spec_new_file_block`]: builds the block
/// for one untracked file from its path relative to the working directory
/// and its content, `None` standing for unreadable or binary content.
pub fn untracked_file_block(rel: &Vec<char>, content: &Option<Vec<char>>) -> (r: Vec<char>)
    ensures
        r@ == spec_new_file_block(rel@, opt_chars_view(*content)),
{
    let mut buf: Vec<char> = Vec::new();
    let ghost mut done: Seq<Seq<char>> = Seq::empty();
    proof {
        assert(buf@ =~= spec_terminated(done));
    }
    let mut l0 = str_to_chars("diff --git a/");
    append_chars(&mut l0, rel);
    push_str_chars(&mut l0, " b/");
    append_chars(&mut l0, rel);
    proof {
        lemma_terminated_push(done, l0@);
        done = done.push(l0@);
    }
    push_text_line(&mut buf, &l0);
    let l1 = str_to_chars("new file mode 100644");
    proof {
        lemma_terminated_push(done, l1@);
        done = done.push(l1@);
    }
    push_text_line(&mut buf, &l1);
    let l2 = str_to_chars("index 0000000..0000000");
    proof {
        lemma_terminated_push(done, l2@);
        done = done.push(l2@);
    }
    push_text_line(&mut buf, &l2);
    let l3 = str_to_chars("--- /dev/null");
    proof {
        lemma_terminated_push(done, l3@);
        done = done.push(l3@);
    }
    push_text_line(&mut buf, &l3);
    let mut l4 = str_to_chars("+++ b/");
    append_chars(&mut l4, rel);
    proof {
        lemma_terminated_push(done, l4@);
        done = done.push(l4@);
    }
    push_text_line(&mut buf, &l4);
    proof {
        assert(done =~= spec_header_lines(rel@));
    }
    match content {
        Some(c) => {
            let lines = split_lines(c);
            let ghost cls = spec_lines(c@);
            let n = lines.len();
            let mut hunk = str_to_chars("@@ -0,0 +1,");
            push_dec_u64(&mut hunk, n as u64);
            push_str_chars(&mut hunk, " @@");
            proof {
                assert(hunk@ == spec_hunk_line(cls.len()));
                lemma_terminated_push(done, hunk@);
                done = done.push(hunk@);
            }
            push_text_line(&mut buf, &hunk);
            let ghost base = done;
            let mut i: usize = 0;
            proof {
                assert(done =~= base + cls.subrange(0, 0).map_values(
                    |l: Seq<char>| spec_plus_line(l),
                ));
            }
            while i < n
                invariant
                    0 <= i <= n == lines@.len(),
                    seq_views(lines@) == cls,
                    buf@ == spec_terminated(done),
                    done == base + cls.subrange(0, i as int).map_values(
                        |l: Seq<char>| spec_plus_line(l),
                    ),
                decreases n - i,
            {
                let mut pl: Vec<char> = Vec::new();
                pl.push('+');
                append_chars(&mut pl, &lines[i]);
                proof {
                    assert(lines@[i as int]@ == cls[i as int]);
                    assert(pl@ =~= spec_plus_line(cls[i as int]));
                    lemma_terminated_push(done, pl@);
                    done = done.push(pl@);
                    assert(cls.subrange(0, i + 1) =~= cls.subrange(0, i as int).push(
                        cls[i as int],
                    ));
                    assert(done =~= base + cls.subrange(0, i + 1).map_values(
                        |l: Seq<char>| spec_plus_line(l),
                    ));
                }
                push_text_line(&mut buf, &pl);
                i += 1;
            }
            proof {
                assert(cls.subrange(0, n as int) =~= cls);
            }
            let ends_nl = c.len() > 0 && c[c.len() - 1] == '\n';
            if !ends_nl {
                let marker = str_to_chars("\\ No newline at end of file");
                proof {
                    lemma_terminated_push(done, marker@);
                    done = done.push(marker@);
                }
                push_text_line(&mut buf, &marker);
            }
            let blank: Vec<char> = Vec::new();
            proof {
                lemma_terminated_push(done, blank@);
                done = done.push(blank@);
            }
            push_text_line(&mut buf, &blank);
            proof {
                assert(done =~~= spec_block_lines(rel@, opt_chars_view(*content)));
            }
        },
        None => {
            let h = str_to_chars("@@ -0,0 +1,1 @@");
            proof {
                lemma_terminated_push(done, h@);
                done = done.push(h@);
            }
            push_text_line(&mut buf, &h);
            let b = str_to_chars("+[Binary or unreadable file]");
            proof {
                lemma_terminated_push(done, b@);
                done = done.push(b@);
            }
            push_text_line(&mut buf, &b);
            let blank: Vec<char> = Vec::new();
            proof {
                lemma_terminated_push(done, blank@);
                done = done.push(blank@);
            }
            push_text_line(&mut buf, &blank);
            proof {
                assert(done =~~= spec_block_lines(rel@, opt_chars_view(*content)));
            }
        },
    }
    buf
}

/// The combined diff text: the trimmed tracked-file diff and the synthesized
/// untracked-file blocks, separated by one line feed when both contribute.
pub open spec fn spec_combine(diff_raw: Seq<char>, untracked: Seq<char>) -> Seq<char> {
    let t = spec_trim(diff_raw);
    if untracked.len() == 0 {
        t
    } else if t.len() == 0 {
        untracked
    } else {
        t + seq!['\n'] + untracked
    }
}

/// Exact runtime counterpart of [`spec_combine`].
pub fn combine_diff(diff_raw: &Vec<char>, untracked: &Vec<char>) -> (r: Vec<char>)
    ensures
        r@ == spec_combine(diff_raw@, untracked@),
{
    let mut out = trim_chars(diff_raw);
    if untracked.len() == 0 {
        return out;
    }
    if out.len() > 0 {
        out.push('\n');
    }
    append_chars(&mut out, untracked);
    assert(out@ =~= spec_combine(diff_raw@, untracked@));
    out
}

/// The views of a vector of strings.
pub open spec fn str_views(vs: Seq<String>) -> Seq<Seq<char>> {
    vs.map_values(|v: String| v@)
}

/// The argument list of the diff invocation: `diff` against the baseline
/// revision, or against `HEAD` when none was captured, with the exclusion
/// patterns appended after a `--` separator when there are any.
pub open spec fn spec_diff_args(baseline: Option<Seq<char>>, excl: Seq<Seq<char>>) -> Seq<
    Seq<char>,
> {
    let head = seq![
        "diff"@,
        match baseline {
            Some(h) => h,
            None => "HEAD"@,
        },
    ];
    if excl.len() == 0 {
        head
    } else {
        head + seq!["--"@] + excl
    }
}

/// The argument list of the untracked-file listing: `ls-files` for files
/// that are neither tracked nor ignored, with the same exclusion patterns.
pub open spec fn spec_ls_args(excl: Seq<Seq<char>>) -> Seq<Seq<char>> {
    let head = seq!["ls-files"@, "--others"@, "--exclude-standard"@];
    if excl.len() == 0 {
        head
    } else {
        head + seq!["--"@] + excl
    }
}

fn append_excl_args(args: &mut Vec<String>, excl: &Vec<Vec<char>>)
    ensures
        str_views(final(args)@) == str_views(old(args)@) + (if excl@.len() == 0 {
            Seq::<Seq<char>>::empty()
        } else {
            seq!["--"@] + seq_views(excl@)
        }),
{
    if excl.len() == 0 {
        assert(str_views(args@) =~= str_views(old(args)@));
        return ;
    }
    args.push("--".to_owned());
    proof {
        assert(str_views(args@) =~= str_views(old(args)@) + seq!["--"@]);
    }
    let ghost base = str_views(args@);
    let mut i: usize = 0;
    while i < excl.len()
        invariant
            0 <= i <= excl@.len(),
            str_views(args@) == base + seq_views(excl@).subrange(0, i as int),
        decreases excl.len() - i,
    {
        let ghost pre = args@;
        args.push(chars_to_string(&excl[i]));
        proof {
            assert(seq_views(excl@)[i as int] == excl@[i as int]@);
            assert(args@.drop_last() =~= pre);
            assert(str_views(args@) =~= str_views(pre).push(args@.last()@));
            assert(seq_views(excl@).subrange(0, i + 1) =~= seq_views(excl@).subrange(
                0,
                i as int,
            ).push(seq_views(excl@)[i as int]));
            assert(str_views(args@) =~= base + seq_views(excl@).subrange(0, i + 1));
        }
        i += 1;
    }
    proof {
        assert(seq_views(excl@).subrange(0, excl@.len() as int) =~= seq_views(excl@));
        assert(str_views(args@) =~= str_views(old(args)@) + (seq!["--"@] + seq_views(excl@)));
    }
}

/// Exact runtime counterpart of [`spec_diff_args`].
pub fn build_diff_args(baseline: &Option<Vec<char>>, excl: &Vec<Vec<char>>) -> (r: Vec<String>)
    ensures
        str_views(r@) == spec_diff_args(opt_chars_view(*baseline), seq_views(excl@)),
{
    let mut args: Vec<String> = Vec::new();
    args.push("diff".to_owned());
    match baseline {
        Some(h) => {
            args.push(chars_to_string(h));
        },
        None => {
            args.push("HEAD".to_owned());
        },
    }
    proof {
        assert(str_views(args@) =~= seq![
            "diff"@,
            match opt_chars_view(*baseline) {
                Some(h) => h,
                None => "HEAD"@,
            },
        ]);
    }
    append_excl_args(&mut args, excl);
    assert(str_views(args@) =~= spec_diff_args(opt_chars_view(*baseline), seq_views(excl@)));
    args
}

/// The argument list that resolves the head revision at baseline capture.
pub open spec fn spec_rev_parse_args() -> Seq<Seq<char>> {
    seq!["rev-parse"@, "HEAD"@]
}

/// Exact runtime counterpart of [`spec_rev_parse_args`].
pub fn build_rev_parse_args() -> (r: Vec<String>)
    ensures
        str_views(r@) == spec_rev_parse_args(),
{
    let mut args: Vec<String> = Vec::new();
    args.push("rev-parse".to_owned());
    args.push("HEAD".to_owned());
    proof {
        assert(str_views(args@) =~= spec_rev_parse_args());
    }
    args
}

/// The argument list that enumerates the repository's worktrees.
pub open spec fn spec_worktree_args() -> Seq<Seq<char>> {
    seq!["worktree"@, "list"@, "--porcelain"@]
}

/// Exact runtime counterpart of [`spec_worktree_args`].
pub fn build_worktree_args() -> (r: Vec<String>)
    ensures
        str_views(r@) == spec_worktree_args(),
{
    let mut args: Vec<String> = Vec::new();
    args.push("worktree".to_owned());
    args.push("list".to_owned());
    args.push("--porcelain".to_owned());
    proof {
        assert(str_views(args@) =~= spec_worktree_args());
    }
    args
}

/// Exact runtime counterpart of [`spec_ls_args`].
pub fn build_ls_args(excl: &Vec<Vec<char>>) -> (r: Vec<String>)
    ensures
        str_views(r@) == spec_ls_args(seq_views(excl@)),
{
    let mut args: Vec<String> = Vec::new();
    args.push("ls-files".to_owned());
    args.push("--others".to_owned());
    args.push("--exclude-standard".to_owned());
    proof {
        assert(str_views(args@) =~= seq!["ls-files"@, "--others"@, "--exclude-standard"@]);
    }
    append_excl_args(&mut args, excl);
    assert(str_views(args@) =~= spec_ls_args(seq_views(excl@)));
    args
}

/// The lines of `raw` whose trimmed text is non-empty, kept verbatim and in
/// order: the candidate untracked paths in a `ls-files` listing.
pub open spec fn spec_nonblank_lines(ls: Seq<Seq<char>>) -> Seq<Seq<char>>
    decreases ls.len(),
{
    if ls.len() == 0 {
        Seq::empty()
    } else {
        let init = spec_nonblank_lines(ls.drop_last());
        if spec_trim(ls.last()).len() == 0 {
            init
        } else {
            init.push(ls.last())
        }
    }
}

/// Exact runtime counterpart of [`spec_nonblank_lines`], applied to the
/// lines of `raw`.
pub fn nonblank_lines(raw: &Vec<char>) -> (r: Vec<Vec<char>>)
    ensures
        seq_views(r@) == spec_nonblank_lines(spec_lines(raw@)),
{
    let lines = split_lines(raw);
    let ghost ls = spec_lines(raw@);
    let mut out: Vec<Vec<char>> = Vec::new();
    let mut i: usize = 0;
    proof {
        assert(seq_views(out@) =~= spec_nonblank_lines(ls.subrange(0, 0)));
    }
    while i < lines.len()
        invariant
            0 <= i <= lines@.len(),
            seq_views(lines@) == ls,
            seq_views(out@) == spec_nonblank_lines(ls.subrange(0, i as int)),
        decreases lines.len() - i,
    {
        proof {
            assert(ls.subrange(0, i + 1).drop_last() =~= ls.subrange(0, i as int));
            assert(ls.subrange(0, i + 1).last() == ls[i as int]);
            assert(lines@[i as int]@ == ls[i as int]);
        }
        let t = trim_chars(&lines[i]);
        if t.len() > 0 {
            let kept = crate::text::clone_chars(&lines[i]);
            out.push(kept);
            proof {
                assert(seq_views(out@) =~= seq_views(out@.drop_last()).push(out@.last()@));
            }
        }
        i += 1;
    }
    assert(ls.subrange(0, lines@.len() as int) =~= ls);
    out
}

/// The view of a `(path, content)` entry list.
pub open spec fn content_views(es: Seq<(Vec<char>, Option<Vec<char>>)>) -> Seq<
    (Seq<char>, Option<Seq<char>>),
> {
    es.map_values(|e: (Vec<char>, Option<Vec<char>>)| (e.0@, opt_chars_view(e.1)))
}

/// The untracked-file section of the combined diff: one synthesized
/// new-file block per `(path, content)` entry, concatenated in order.
pub open spec fn spec_untracked_blocks(es: Seq<(Seq<char>, Option<Seq<char>>)>) -> Seq<char>
    decreases es.len(),
{
    if es.len() == 0 {
        Seq::empty()
    } else {
        spec_untracked_blocks(es.drop_last()) + spec_new_file_block(
            es.last().0,
            es.last().1,
        )
    }
}

/// Exact runtime counterpart of [`spec_untracked_blocks`].
pub fn untracked_blocks(entries: &Vec<(Vec<char>, Option<Vec<char>>)>) -> (r: Vec<char>)
    ensures
        r@ == spec_untracked_blocks(content_views(entries@)),
{
    let ghost es = content_views(entries@);
    let mut buf: Vec<char> = Vec::new();
    let mut i: usize = 0;
    proof {
        assert(buf@ =~= spec_untracked_blocks(es.subrange(0, 0)));
    }
    while i < entries.len()
        invariant
            0 <= i <= entries@.len(),
            es == content_views(entries@),
            buf@ == spec_untracked_blocks(es.subrange(0, i as int)),
        decreases entries.len() - i,
    {
        proof {
            assert(es.subrange(0, i + 1).drop_last() =~= es.subrange(0, i as int));
            assert(es.subrange(0, i + 1).last() == es[i as int]);
            assert(es[i as int] == (entries@[i as int].0@, opt_chars_view(
                entries@[i as int].1,
            )));
        }
        let block = untracked_file_block(&entries[i].0, &entries[i].1);
        append_chars(&mut buf, &block);
        assert(buf@ =~= spec_untracked_blocks(es.subrange(0, i + 1)));
        i += 1;
    }
    assert(es.subrange(0, entries@.len() as int) =~= es);
    buf
}

/// A path under the working directory: `base` and `rel` joined with one
/// separating slash.
pub open spec fn spec_join_path(base: Seq<char>, rel: Seq<char>) -> Seq<char> {
    if base.len() > 0 && base.last() == '/' {
        base + rel
    } else {
        base + seq!['/'] + rel
    }
}

/// Exact runtime counterpart of [`spec_join_path`].
pub fn join_path(base: &Vec<char>, rel: &Vec<char>) -> (r: Vec<char>)
    ensures
        r@ == spec_join_path(base@, rel@),
{
    let mut out = crate::text::clone_chars(base);
    if !(out.len() > 0 && out[out.len() - 1] == '/') {
        out.push('/');
    }
    append_chars(&mut out, rel);
    assert(out@ =~= spec_join_path(base@, rel@));
    out
}

} // verus!

