//! The guarantees the tracker's pieces give together, stated as proved laws:
//! deduplication suppresses unchanged diffs and surfaces changed ones, the
//! untracked-file filter admits only files created during the session, the
//! exclusion list covers every sibling worktree under the tracked directory,
//! and a synthesized new-file block has exactly the advertised line shape.

use vstd::prelude::*;

use crate::diff::{
    spec_block_lines, spec_ends_nl, spec_exclusion_of, spec_exclusions_lines, spec_header_lines,
    spec_hunk_line, spec_keeps, spec_new_file_block, spec_new_files, spec_plus_line,
};
use crate::digest::{sha1_of, spec_select_changed};
use crate::text::{
    lemma_lines_no_nl, lemma_lines_of_terminated, no_nl, spec_lines, spec_trim, strip_cr,
};

verus! {

/// Requesting the diff twice without an intervening change returns nothing
/// the second time: whatever digest state the first selection leaves behind,
/// a second selection of the same trimmed text is suppressed.
pub proof fn lemma_unchanged_diff_suppressed(t: Seq<char>, last: Option<Seq<u8>>)
    ensures
        spec_select_changed(t, spec_select_changed(t, last).1).0 is None,
{
}

/// A diff whose digest differs from the stored one is always returned, and
/// its digest becomes the stored one.
pub proof fn lemma_changed_diff_returned(t: Seq<char>, last: Option<Seq<u8>>)
    requires
        last != Some(sha1_of(t)),
    ensures
        spec_select_changed(t, last) == (Some(t), Some(sha1_of(t))),
{
}

/// A path none of whose entries has a timestamp at or after session start
/// is never selected: a pre-existing untracked file never appears in a
/// synthesized diff, however late the tracker is queried.
pub proof fn lemma_preexisting_excluded(es: Seq<(Seq<char>, Option<u64>)>, start: u64, p: Seq<char>)
    requires
        forall|j: int| 0 <= j < es.len() && (#[trigger] es[j]).0 == p ==> !spec_keeps(es[j].1, start),
    ensures
        !spec_new_files(es, start).contains(p),
    decreases es.len(),
{
    if es.len() > 0 {
        let dl = es.drop_last();
        assert(forall|j: int| 0 <= j < dl.len() ==> (#[trigger] dl[j]) == es[j]);
        lemma_preexisting_excluded(dl, start, p);
        let init = spec_new_files(dl, start);
        if spec_keeps(es.last().1, start) {
            assert(es[es.len() - 1] == es.last());
            assert(es.last().0 != p);
            let r = spec_new_files(es, start);
            assert(r == init.push(es.last().0));
            if r.contains(p) {
                let k = choose|k: int| 0 <= k < r.len() && r[k] == p;
                if k < init.len() {
                    assert(init[k] == p);
                    assert(init.contains(p));
                } else {
                    assert(r[k] == es.last().0);
                }
            }
        } else {
            if spec_new_files(es, start).contains(p) {
                let k = choose|k: int|
                    0 <= k < spec_new_files(es, start).len() && spec_new_files(es, start)[k] == p;
                assert(init[k] == p);
                assert(init.contains(p));
            }
        }
    }
}

/// Every file whose timestamp proves it created during the session is
/// selected.
pub proof fn lemma_untracked_all_new_files(es: Seq<(Seq<char>, Option<u64>)>, start: u64)
    ensures
        forall|j: int|
            0 <= j < es.len() && spec_keeps(#[trigger] es[j].1, start) ==> spec_new_files(
                es,
                start,
            ).contains(es[j].0),
    decreases es.len(),
{
    if es.len() > 0 {
        let init = spec_new_files(es.drop_last(), start);
        lemma_untracked_all_new_files(es.drop_last(), start);
        assert forall|j: int|
            0 <= j < es.len() && spec_keeps(#[trigger] es[j].1, start) implies spec_new_files(
            es,
            start,
        ).contains(es[j].0) by {
            if j < es.len() - 1 {
                assert(es.drop_last()[j] == es[j]);
                assert(init.contains(es[j].0));
                let k = choose|k: int| 0 <= k < init.len() && init[k] == es[j].0;
                assert(spec_new_files(es, start)[k] == es[j].0);
            } else {
                assert(es[j] == es.last());
                if spec_keeps(es.last().1, start) {
                    let r = spec_new_files(es, start);
                    assert(r[r.len() - 1] == es.last().0);
                }
            }
        }
    }
}

/// Every worktree-list line that names a path strictly under the tracked
/// directory contributes its exclusion pattern to the computed list.
pub proof fn lemma_sibling_worktree_excluded(ls: Seq<Seq<char>>, dir: Seq<char>, i: int)
    requires
        0 <= i < ls.len(),
        spec_exclusion_of(ls[i], dir) is Some,
    ensures
        spec_exclusions_lines(ls, dir).contains(spec_exclusion_of(ls[i], dir)->0),
    decreases ls.len(),
{
    let r = spec_exclusions_lines(ls, dir);
    let init = spec_exclusions_lines(ls.drop_last(), dir);
    if i == ls.len() - 1 {
        assert(ls.last() == ls[i]);
        assert(r[r.len() - 1] == spec_exclusion_of(ls[i], dir)->0);
    } else {
        assert(ls.drop_last()[i] == ls[i]);
        lemma_sibling_worktree_excluded(ls.drop_last(), dir, i);
        let k = choose|k: int|
            0 <= k < init.len() && init[k] == spec_exclusion_of(ls[i], dir)->0;
        assert(r[k] == init[k]);
    }
}

/// The shape of a synthesized new-file block, read back line by line: after
/// the five header lines comes the hunk header announcing exactly the
/// content's line count, then one `+`-prefixed line per content line, then —
/// precisely when the content does not end in a line feed — the
/// `\ No newline at end of file` marker, then the blank separator line.
///
/// A relative path containing a line feed, or ending in a carriage return,
/// would break the line structure, so such paths are excluded here.
pub proof fn lemma_new_file_block_lines(rel: Seq<char>, c: Seq<char>)
    requires
        no_nl(rel),
        rel.len() > 0 ==> rel.last() != '\r',
    ensures
        ({
            let bls = spec_lines(spec_new_file_block(rel, Some(c)));
            let n = spec_lines(c).len() as int;
            let marker: int = if spec_ends_nl(c) {
                0
            } else {
                1
            };
            &&& bls.len() == 6 + n + marker + 1
            &&& bls[5] == spec_hunk_line(n as nat)
            &&& forall|k: int| 0 <= k < n ==> (#[trigger] bls[6 + k]).len() >= 1 && bls[6 + k][0]
                == '+'
            &&& marker == 1 ==> bls[6 + n] == "\\ No newline at end of file"@
            &&& bls[bls.len() - 1] == Seq::<char>::empty()
        }),
{
    let ls = spec_block_lines(rel, Some(c));
    let cls = spec_lines(c);
    let n = cls.len() as int;
    let plus = cls.map_values(|l: Seq<char>| spec_plus_line(l));
    let marker_lines: Seq<Seq<char>> = if spec_ends_nl(c) {
        Seq::empty()
    } else {
        seq!["\\ No newline at end of file"@]
    };
    reveal_strlit("diff --git a/");
    reveal_strlit(" b/");
    reveal_strlit("new file mode 100644");
    reveal_strlit("index 0000000..0000000");
    reveal_strlit("--- /dev/null");
    reveal_strlit("+++ b/");
    reveal_strlit("@@ -0,0 +1,");
    reveal_strlit(" @@");
    reveal_strlit("\\ No newline at end of file");
    lemma_lines_no_nl(c);
    crate::text::lemma_dec_plain(n as nat);
    assert forall|i: int| 0 <= i < ls.len() implies no_nl(#[trigger] ls[i]) by {
        if i < 5 {
            assert(no_nl(spec_header_lines(rel)[i]));
            assert(ls[i] == spec_header_lines(rel)[i]);
        } else if i == 5 {
            assert(ls[5] == spec_hunk_line(n as nat));
            assert(no_nl(spec_hunk_line(n as nat)));
        } else if i < 6 + n {
            assert(ls[i] == plus[i - 6]);
            assert(plus[i - 6] == spec_plus_line(cls[i - 6]));
            assert(no_nl(cls[i - 6]));
            assert(no_nl(spec_plus_line(cls[i - 6])));
        } else if i < 6 + n + marker_lines.len() {
            assert(ls[i] == marker_lines[0]);
            assert(no_nl("\\ No newline at end of file"@));
        } else {
            assert(ls[i] == Seq::<char>::empty());
            assert(no_nl(Seq::<char>::empty()));
        }
    }
    lemma_lines_of_terminated(ls);
    let bls = spec_lines(spec_new_file_block(rel, Some(c)));
    assert(bls == ls.map_values(|l: Seq<char>| strip_cr(l)));
    assert(bls.len() == ls.len());
    assert(ls.len() == 6 + n + marker_lines.len() + 1);
    assert(bls[5] == strip_cr(ls[5]));
    assert(ls[5] == spec_hunk_line(n as nat));
    assert(spec_hunk_line(n as nat).last() == '@') by {
        assert(" @@"@.len() == 3);
        assert(" @@"@[2] == '@');
    }
    assert(strip_cr(spec_hunk_line(n as nat)) == spec_hunk_line(n as nat));
    assert forall|k: int| 0 <= k < n implies (#[trigger] bls[6 + k]).len() >= 1 && bls[6 + k][0]
        == '+' by {
        assert(ls[6 + k] == plus[k]);
        assert(plus[k] == spec_plus_line(cls[k]));
        let pl = spec_plus_line(cls[k]);
        assert(pl.len() >= 1 && pl[0] == '+');
        assert(bls[6 + k] == strip_cr(pl));
        if pl.len() > 0 && pl.last() == '\r' {
            assert(pl.len() >= 2);
            assert(strip_cr(pl)[0] == pl[0]);
        }
    }
    if !spec_ends_nl(c) {
        assert(ls[6 + n] == "\\ No newline at end of file"@);
        assert("\\ No newline at end of file"@.last() == 'e');
        assert(bls[6 + n] == strip_cr(ls[6 + n]));
        assert(strip_cr(ls[6 + n]) == ls[6 + n]);
    }
    assert(ls[ls.len() - 1] == Seq::<char>::empty());
    assert(bls[bls.len() - 1] == strip_cr(Seq::<char>::empty()));
}

/// A worktree-list line naming the tracked directory itself, or any path
/// not strictly under it, contributes no exclusion pattern.
pub proof fn lemma_own_worktree_not_excluded(line: Seq<char>, dir: Seq<char>)
    requires
        spec_trim(line.subrange("worktree "@.len() as int, line.len() as int)) == dir,
    ensures
        spec_exclusion_of(line, dir) is None,
{
}

} // verus!
