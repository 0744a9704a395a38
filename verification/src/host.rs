//! The capability through which the tracker reaches the outside world.
//!
//! The tracker never runs a process or touches a file itself: every ambient
//! effect goes through a [`SessionHost`] chosen by the caller.  A production
//! host shells out to the version-control tool and reads the file system; a
//! test host answers from fixed tables.  Either way the convention is the
//! same: arguments in, text out, and every failure already folded into the
//! documented fallback value, so nothing is promised about any result and
//! the tracker's contracts hold for every host.

use vstd::prelude::*;

verus! {

/// What a session needs from its surroundings.
///
/// Failures are folded into the results: a version-control invocation that
/// cannot be launched, exits non-zero, or prints nothing yields the empty
/// string; an unobtainable timestamp yields `None`; an unreadable or
/// non-textual file yields `None`.
pub trait SessionHost {
    /// Runs the version-control tool with `args`, in `dir` when one is
    /// given and in the process's current directory otherwise, and returns
    /// its standard output; the empty string on any failure.
    fn run_vcs(&mut self, args: &Vec<String>, dir: &Option<String>) -> String;

    /// The process's current working directory.
    fn current_dir(&mut self) -> String;

    /// The wall-clock time now, in milliseconds since an epoch fixed for
    /// the process's lifetime.
    fn now(&mut self) -> u64;

    /// The creation time of the file at `path` on the same clock as
    /// [`SessionHost::now`], its modification time when the platform keeps
    /// no creation time, or `None` when neither is obtainable.
    fn file_timestamp(&mut self, path: &String) -> Option<u64>;

    /// The text of the file at `path`, or `None` when it cannot be read or
    /// decoded as text.
    fn read_text_file(&mut self, path: &String) -> Option<String>;
}

} // verus!
