//! Multiple-reader/single-writer guard state for one index handle.
//!
//! Every access to a live engine index goes through this one choke point:
//! search, get-document, stats and get-synonyms hold shared access, while
//! document mutation, commit, close, synonym updates and index deletion hold
//! exclusive access.  The state machine below makes the exclusion structural:
//! acquisition succeeds only when the requested mode is compatible with the
//! holders already present, and well-formedness rules out a writer running
//! beside any reader.
use vstd::prelude::*;

verus! {

/// Guard state: how many shared holders are active and whether an exclusive
/// holder is active.
pub struct RwGuardState {
    pub readers: u64,
    pub writer: bool,
}

impl RwGuardState {
    /// A writer excludes every reader.
    pub open spec fn wf(self) -> bool {
        self.writer ==> self.readers == 0
    }

    /// Shared access is currently held.
    pub open spec fn read_locked(self) -> bool {
        self.readers > 0
    }

    /// Exclusive access is currently held.
    pub open spec fn write_locked(self) -> bool {
        self.writer
    }

    /// A fresh guard: no holder of either kind.
    pub fn new() -> (g: Self)
        ensures
            g.readers == 0,
            !g.writer,
            g.wf(),
    {
        RwGuardState { readers: 0, writer: false }
    }

    /// Admit one more shared holder.  Admission succeeds exactly when no
    /// exclusive holder is active; a granted reader never runs beside a
    /// writer, and the writer flag is left untouched either way.
    pub fn try_acquire_shared(&mut self) -> (granted: bool)
        requires
            old(self).wf(),
            old(self).readers < u64::MAX,
        ensures
            final(self).wf(),
            granted <==> !old(self).writer,
            final(self).writer == old(self).writer,
            granted ==> final(self).readers == old(self).readers + 1,
            !granted ==> final(self).readers == old(self).readers,
    {
        if self.writer {
            false
        } else {
            self.readers = self.readers + 1;
            true
        }
    }

    /// Release one shared holder.
    pub fn release_shared(&mut self)
        requires
            old(self).wf(),
            old(self).readers > 0,
        ensures
            final(self).wf(),
            final(self).readers == old(self).readers - 1,
            final(self).writer == old(self).writer,
    {
        self.readers = self.readers - 1;
    }

    /// Admit the exclusive holder.  Admission succeeds exactly when no holder
    /// of either kind is active, so a writer never observes a concurrent
    /// reader or a second writer.
    pub fn try_acquire_exclusive(&mut self) -> (granted: bool)
        requires
            old(self).wf(),
        ensures
            final(self).wf(),
            granted <==> (!old(self).writer && old(self).readers == 0),
            granted ==> *final(self) == (RwGuardState { readers: 0, writer: true }),
            !granted ==> *final(self) == *old(self),
    {
        if self.writer || self.readers > 0 {
            false
        } else {
            self.writer = true;
            true
        }
    }

    /// Release the exclusive holder.
    pub fn release_exclusive(&mut self)
        requires
            old(self).wf(),
            old(self).writer,
        ensures
            final(self).wf(),
            !final(self).writer,
            final(self).readers == 0,
    {
        self.writer = false;
    }
}

/// The guard state after admitting one more shared holder.
pub open spec fn with_one_more_reader(g: RwGuardState) -> RwGuardState {
    RwGuardState { readers: (g.readers + 1) as u64, writer: g.writer }
}

/// The guard state after admitting `n` shared holders in a row.
pub open spec fn with_n_more_readers(g: RwGuardState, n: nat) -> RwGuardState
    decreases n,
{
    if n == 0 {
        g
    } else {
        with_one_more_reader(with_n_more_readers(g, (n - 1) as nat))
    }
}

/// Readers coexist: while no writer holds the guard, any number of shared
/// acquisitions are all granted — after `n` of them the guard holds `n` more
/// readers, still has no writer, and is still well formed, so none of the `n`
/// concurrent read calls is turned away.
pub proof fn lemma_readers_coexist(g: RwGuardState, n: nat)
    requires
        g.wf(),
        !g.writer,
        g.readers + n <= u64::MAX,
    ensures
        with_n_more_readers(g, n).readers == g.readers + n,
        !with_n_more_readers(g, n).writer,
        with_n_more_readers(g, n).wf(),
    decreases n,
{
    if n > 0 {
        lemma_readers_coexist(g, (n - 1) as nat);
    }
}

/// Reader/writer exclusion: a well-formed guard never has an exclusive holder
/// beside a shared holder, so no read runs while a write (such as a commit's
/// flush) is in progress, and no read observes a partially flushed state.
pub proof fn lemma_reader_writer_exclusion(g: RwGuardState)
    requires
        g.wf(),
    ensures
        !(g.writer && g.readers > 0),
{
}

} // verus!
