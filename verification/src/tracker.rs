//! The session-scoped change tracker.
//!
//! A [`GitDiffTracker`] is bound to a working directory at session start.
//! Construction captures a baseline revision; failure to capture one
//! permanently disables the tracker, and every later operation then reports
//! "unavailable" (`None`) instead of attempting a version-control call.

use vstd::prelude::*;

use crate::diff::{
    build_diff_args, build_ls_args, build_rev_parse_args, build_worktree_args, combine_diff,
    join_path, nonblank_lines, select_new_files, untracked_blocks, worktree_exclusions,
};
use crate::digest::{opt_bytes_view, select_if_changed, sha1_of};
use crate::host::SessionHost;
use crate::text::{chars_to_string, lemma_trim_trimmed, spec_trim, str_to_chars, trim_chars};

verus! {

/// Tracks changes to a working tree from a baseline captured at session
/// start, and can produce a combined unified diff of committed changes,
/// uncommitted edits, and files created during the session.
pub struct GitDiffTracker<H: SessionHost> {
    host: H,
    enabled: bool,
    cwd: Option<String>,
    initial_git_hash: Option<Vec<char>>,
    session_start_time: u64,
    last_diff_hash: Option<Vec<u8>>,
}

/// The view of an optional directory string.
pub open spec fn opt_str_view(s: Option<String>) -> Option<Seq<char>> {
    match s {
        Some(v) => Some(v@),
        None => None,
    }
}

/// What baseline capture makes of the head-resolution output: the trimmed
/// revision identifier, or nothing — which disables tracking — when the
/// output was empty or whitespace only.
pub open spec fn spec_baseline_of(out: Seq<char>) -> Option<Seq<char>> {
    if spec_trim(out).len() == 0 {
        None
    } else {
        Some(spec_trim(out))
    }
}

/// Exact runtime counterpart of [`spec_baseline_of`].
pub fn decide_baseline(out: &Vec<char>) -> (r: Option<Vec<char>>)
    ensures
        r is Some <==> spec_trim(out@).len() > 0,
        r matches Some(h) ==> h@ == spec_trim(out@),
        match r {
            Some(h) => spec_baseline_of(out@) == Some(h@),
            None => spec_baseline_of(out@) is None,
        },
{
    let trimmed = trim_chars(out);
    if trimmed.len() > 0 {
        Some(trimmed)
    } else {
        None
    }
}

impl<H: SessionHost> GitDiffTracker<H> {
    /// Is tracking active?  False once baseline capture has failed.
    pub closed spec fn is_enabled(&self) -> bool {
        self.enabled
    }

    /// The baseline revision captured at construction, if any.
    pub closed spec fn baseline(&self) -> Option<Seq<char>> {
        match self.initial_git_hash {
            Some(h) => Some(h@),
            None => None,
        }
    }

    /// The directory the tracker operates in; `None` means the process's
    /// current directory at call time.
    pub closed spec fn dir(&self) -> Option<Seq<char>> {
        opt_str_view(self.cwd)
    }

    /// The wall-clock timestamp taken at construction.
    pub closed spec fn session_start(&self) -> u64 {
        self.session_start_time
    }

    /// The digest of the most recently returned deduplicated diff, if any.
    pub closed spec fn last_digest(&self) -> Option<Seq<u8>> {
        opt_bytes_view(self.last_diff_hash)
    }

    /// Everything but the deduplication digest is fixed for the tracker's
    /// lifetime after construction.
    pub open spec fn same_session(&self, other: &Self) -> bool {
        &&& self.is_enabled() == other.is_enabled()
        &&& self.baseline() == other.baseline()
        &&& self.dir() == other.dir()
        &&& self.session_start() == other.session_start()
    }

    /// Builds a tracker over `cwd` (the process's current directory when
    /// `None`) and captures the baseline revision.  A tracker constructed
    /// with `enabled` false, or over a directory in which no head revision
    /// can be resolved, is permanently disabled.
    pub fn new(enabled: bool, cwd: Option<String>, host: H) -> (t: Self)
        ensures
            t.last_digest() is None,
            t.dir() == opt_str_view(cwd),
            t.is_enabled() ==> enabled,
            !t.is_enabled() ==> t.baseline() is None,
            t.is_enabled() ==> (t.baseline() matches Some(h) && h.len() > 0 && h
                == spec_trim(h)),
    {
        let mut host = host;
        let start = host.now();
        let mut t = GitDiffTracker {
            host,
            enabled,
            cwd,
            initial_git_hash: None,
            session_start_time: start,
            last_diff_hash: None,
        };
        if t.enabled {
            t.capture_initial_state();
        }
        t
    }

    /// Applies the head-resolution output to the tracker's state, exactly
    /// as [`spec_baseline_of`] reads it: a trimmed, non-empty revision is
    /// stored as the baseline and tracking stays enabled; empty or
    /// whitespace-only output disables the tracker and leaves the baseline
    /// untouched.
    fn apply_baseline(&mut self, out: &Vec<char>)
        requires
            old(self).is_enabled(),
        ensures
            final(self).last_digest() == old(self).last_digest(),
            final(self).dir() == old(self).dir(),
            final(self).session_start() == old(self).session_start(),
            match spec_baseline_of(out@) {
                Some(h) => final(self).is_enabled() && final(self).baseline() == Some(h),
                None => !final(self).is_enabled() && final(self).baseline() == old(
                    self,
                ).baseline(),
            },
    {
        match decide_baseline(out) {
            Some(revision) => {
                self.initial_git_hash = Some(revision);
            },
            None => {
                self.enabled = false;
            },
        }
    }

    /// Resolves the head revision of the working directory with
    /// `rev-parse HEAD` and applies the output through [`decide_baseline`]:
    /// a trimmed, non-empty revision is stored as the baseline and tracking
    /// stays enabled; anything else (no repository, no commits, empty
    /// output) disables the tracker for good.
    fn capture_initial_state(&mut self)
        requires
            old(self).is_enabled(),
        ensures
            final(self).last_digest() == old(self).last_digest(),
            final(self).dir() == old(self).dir(),
            final(self).session_start() == old(self).session_start(),
            final(self).is_enabled() ==> (final(self).baseline() matches Some(h) && h.len() > 0
                && h == spec_trim(h)),
            !final(self).is_enabled() ==> final(self).baseline() == old(self).baseline(),
    {
        let args = build_rev_parse_args();
        let out = self.host.run_vcs(&args, &self.cwd);
        let out_chars = str_to_chars(out.as_str());
        proof {
            lemma_trim_trimmed(out_chars@);
        }
        self.apply_baseline(&out_chars);
    }

    /// The directory all paths are resolved against: the tracker's own, or
    /// the process's current directory when none was given.
    fn effective_dir(&mut self) -> (d: Vec<char>)
        ensures
            final(self).same_session(old(self)),
            final(self).last_digest() == old(self).last_digest(),
    {
        match &self.cwd {
            Some(d) => str_to_chars(d.as_str()),
            None => {
                let c = self.host.current_dir();
                str_to_chars(c.as_str())
            },
        }
    }

    /// Lists the repository's worktrees and computes one exclusion pattern
    /// for every worktree lying strictly under the tracked directory, so
    /// that a sibling checkout's files never surface in this session's diff.
    fn compute_exclusions(&mut self) -> (excl: Vec<Vec<char>>)
        ensures
            final(self).same_session(old(self)),
            final(self).last_digest() == old(self).last_digest(),
    {
        let args = build_worktree_args();
        let raw = self.host.run_vcs(&args, &self.cwd);
        let raw_chars = str_to_chars(raw.as_str());
        let dir = self.effective_dir();
        worktree_exclusions(&raw_chars, &dir)
    }

    /// Synthesizes new-file diff blocks for every untracked file whose
    /// timestamp shows it was created during the session.
    fn untracked_section(&mut self, excl: &Vec<Vec<char>>) -> (r: Vec<char>)
        ensures
            final(self).same_session(old(self)),
            final(self).last_digest() == old(self).last_digest(),
    {
        let args = build_ls_args(excl);
        let out = self.host.run_vcs(&args, &self.cwd);
        let out_chars = str_to_chars(out.as_str());
        let files = nonblank_lines(&out_chars);
        if files.len() == 0 {
            return Vec::new();
        }
        let base = self.effective_dir();
        let mut entries: Vec<(Vec<char>, Option<u64>)> = Vec::new();
        let mut i: usize = 0;
        while i < files.len()
            invariant
                self.same_session(old(self)),
                self.last_digest() == old(self).last_digest(),
            decreases files.len() - i,
        {
            let abs = join_path(&base, &files[i]);
            let abs_s = chars_to_string(&abs);
            let ts = self.host.file_timestamp(&abs_s);
            let rel = crate::text::clone_chars(&files[i]);
            entries.push((rel, ts));
            i += 1;
        }
        let kept = select_new_files(&entries, self.session_start_time);
        let mut contents: Vec<(Vec<char>, Option<Vec<char>>)> = Vec::new();
        let mut j: usize = 0;
        while j < kept.len()
            invariant
                self.same_session(old(self)),
                self.last_digest() == old(self).last_digest(),
            decreases kept.len() - j,
        {
            let abs = join_path(&base, &kept[j]);
            let abs_s = chars_to_string(&abs);
            let content = match self.host.read_text_file(&abs_s) {
                Some(s) => Some(str_to_chars(s.as_str())),
                None => None,
            };
            let rel = crate::text::clone_chars(&kept[j]);
            contents.push((rel, content));
            j += 1;
        }
        untracked_blocks(&contents)
    }

    /// The combined diff since the baseline: `None` when tracking is
    /// disabled, otherwise the (possibly empty) diff text combining the
    /// committed-plus-uncommitted diff with synthesized new-file blocks.
    pub fn get_diff(&mut self) -> (r: Option<String>)
        ensures
            final(self).same_session(old(self)),
            final(self).last_digest() == old(self).last_digest(),
            r is Some <==> old(self).is_enabled(),
    {
        if !self.enabled {
            return None;
        }
        let excl = self.compute_exclusions();
        let args = build_diff_args(&self.initial_git_hash, &excl);
        let out = self.host.run_vcs(&args, &self.cwd);
        let diff_raw = str_to_chars(out.as_str());
        let untracked = self.untracked_section(&excl);
        let combined = combine_diff(&diff_raw, &untracked);
        Some(chars_to_string(&combined))
    }

    /// The combined diff, but only when it differs from the last diff this
    /// method returned: `None` both when tracking is disabled and when the
    /// current diff's digest equals the stored one.  A returned diff is
    /// trimmed, and its digest becomes the stored digest.
    pub fn get_diff_if_changed(&mut self) -> (r: Option<String>)
        ensures
            final(self).same_session(old(self)),
            !old(self).is_enabled() ==> r is None,
            r is None ==> final(self).last_digest() == old(self).last_digest(),
            r matches Some(t) ==> {
                &&& t@ == spec_trim(t@)
                &&& final(self).last_digest() == Some(sha1_of(t@))
                &&& old(self).last_digest() != Some(sha1_of(t@))
            },
    {
        let diff = match self.get_diff() {
            Some(d) => d,
            None => {
                return None;
            },
        };
        let diff_chars = str_to_chars(diff.as_str());
        let trimmed = trim_chars(&diff_chars);
        proof {
            lemma_trim_trimmed(diff_chars@);
        }
        let (sel, digest) = select_if_changed(trimmed, &self.last_diff_hash);
        match sel {
            None => None,
            Some(t) => {
                self.last_diff_hash = digest;
                Some(chars_to_string(&t))
            },
        }
    }
}

} // verus!
