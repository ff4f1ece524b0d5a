//! Atomic metadata persistence, modeled at the protocol level.
//!
//! Account metadata is written with a two-step protocol: the full content
//! goes to a sibling temporary path first, and a rename then moves it over
//! the target path.  A reader only ever looks at the target, so an
//! interrupted write — temporary file present, rename never performed —
//! leaves the visible content exactly as it was.  The filesystem calls
//! themselves are the caller's job; this module keeps the two slots of one
//! metadata file and decides what each step of the protocol does to them.
use vstd::prelude::*;

use crate::ApiError;

verus! {

/// The two on-disk slots of one atomically written metadata file: the target
/// path and its sibling temporary path.  `None` stands for an absent file.
pub struct AtomicFile {
    pub target: Option<String>,
    pub temp: Option<String>,
}

/// What a reader of the file observes: the target slot only.  A temporary
/// file, stale or fresh, is never read.
pub open spec fn visible(f: AtomicFile) -> Option<Seq<char>> {
    match f.target {
        Some(c) => Some(c@),
        None => None,
    }
}

impl AtomicFile {
    /// A path where neither the target nor the temporary file exists yet.
    pub fn new() -> (f: Self)
        ensures
            f.target is None,
            f.temp is None,
    {
        AtomicFile { target: None, temp: None }
    }

    /// First protocol step: the full new content reaches the temporary
    /// sibling path.  The visible content is untouched.
    pub fn write_temp(&mut self, content: String)
        ensures
            final(self).temp == Some(content),
            final(self).target == old(self).target,
            visible(*final(self)) == visible(*old(self)),
    {
        self.temp = Some(content);
    }

    /// Second protocol step: the rename moves the temporary file over the
    /// target, so the new content becomes visible in one step.
    pub fn commit_rename(&mut self)
        requires
            old(self).temp is Some,
        ensures
            final(self).target == old(self).temp,
            final(self).temp is None,
    {
        self.target = self.temp.take();
    }

    /// Read the file as recovery does: the target content alone, with any
    /// temporary file ignored.
    pub fn read(&self) -> (r: Option<&String>)
        ensures
            match r {
                Some(c) => self.target == Some(*c),
                None => self.target is None,
            },
    {
        match &self.target {
            Some(c) => Some(c),
            None => None,
        }
    }

    /// Save new content atomically.  `rename_outcomes` reports, in order,
    /// whether each attempted rename succeeded on the real filesystem: the
    /// rename is retried once, and a second failure surfaces as `IOFailure`
    /// with the content still parked in the temporary slot and the visible
    /// content unchanged.
    pub fn save_file_atomically(
        &mut self,
        content: String,
        rename_outcomes: (bool, bool),
    ) -> (r: Result<(), ApiError>)
        ensures
            r is Ok <==> (rename_outcomes.0 || rename_outcomes.1),
            r is Ok ==> final(self).target == Some(content) && final(self).temp is None,
            r is Err ==> final(self).target == old(self).target
                && final(self).temp == Some(content)
                && visible(*final(self)) == visible(*old(self))
                && (r matches Err(e) && e is IOFailure),
    {
        self.write_temp(content);
        if rename_outcomes.0 {
            self.commit_rename();
            Ok(())
        } else if rename_outcomes.1 {
            self.commit_rename();
            Ok(())
        } else {
            Err(ApiError::IOFailure("rename failed twice".to_string()))
        }
    }
}

/// Atomic write safety: a write interrupted after the temporary file was
/// written but before the rename ran leaves the reader's view of the file —
/// the target slot — exactly as it was; the stale temporary file is ignored.
pub proof fn lemma_interrupted_write_invisible(before: AtomicFile, after: AtomicFile, content: String)
    requires
        after.target == before.target,
        after.temp == Some(content),
    ensures
        visible(after) == visible(before),
{
}

} // verus!
