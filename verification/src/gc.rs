//! Deferred cleanup of superseded archive versions.
//!
//! When a hot-swap publishes a new reader, the displaced version's files must
//! stay on disk until every in-flight lookup holding the old reader has
//! finished.  This ledger records each superseded version, whether some
//! reader still references it, and whether its files were already deleted.
//! The I/O shell polls: it reports when the last reference dropped and asks
//! which version to delete.  The contracts here guarantee that a referenced
//! version is never handed out for deletion, and that each version is handed
//! out exactly once; the ghost `delivered` counter tallies how often a
//! version was actually handed out, and the ledger invariant caps it at one.

use vstd::prelude::*;
use crate::store::{ArchiveFileInfo, VersionView};

verus! {

/// One superseded version awaiting cleanup.
pub struct GcTask {
    pub version: ArchiveFileInfo,
    pub referenced: bool,
    pub deleted: bool,
    /// How many times this version was handed out for deletion.
    pub delivered: Ghost<nat>,
}

/// The mathematical content of a [`GcTask`].
pub struct GcTaskView {
    pub version: VersionView,
    pub referenced: bool,
    pub deleted: bool,
    pub delivered: nat,
}

impl View for GcTask {
    type V = GcTaskView;

    open spec fn view(&self) -> GcTaskView {
        GcTaskView {
            version: self.version@,
            referenced: self.referenced,
            deleted: self.deleted,
            delivered: self.delivered@,
        }
    }
}

/// The ledger of superseded versions.
pub struct DeferredGc {
    pub tasks: Vec<GcTask>,
}

impl DeferredGc {
    /// Well-formed.  A version still held by some reader has never been
    /// handed out for deletion, and no version is handed out twice: the
    /// `deleted` mark and the delivery count move together.
    pub open spec fn wf(self) -> bool {
        forall|i: int|
            0 <= i < self.tasks@.len() ==> {
                let t = (#[trigger] self.tasks@[i])@;
                &&& (t.referenced ==> !t.deleted)
                &&& t.delivered <= 1
                &&& (t.deleted <==> t.delivered == 1)
            }
    }

    /// An empty ledger.
    pub fn new() -> (r: DeferredGc)
        ensures
            r.wf(),
            r.tasks@.len() == 0,
    {
        DeferredGc { tasks: Vec::new() }
    }

    /// Records a version displaced by a hot-swap.  It starts referenced: the
    /// prior reader was live when it was superseded.
    pub fn schedule(&mut self, version: ArchiveFileInfo) -> (id: usize)
        requires
            old(self).wf(),
        ensures
            final(self).wf(),
            id == old(self).tasks@.len(),
            final(self).tasks@.len() == old(self).tasks@.len() + 1,
            forall|i: int| 0 <= i < id ==> final(self).tasks@[i] == old(self).tasks@[i],
            final(self).tasks@[id as int]@ == (GcTaskView {
                version: version@,
                referenced: true,
                deleted: false,
                delivered: 0,
            }),
    {
        let id = self.tasks.len();
        self.tasks.push(
            GcTask { version, referenced: true, deleted: false, delivered: Ghost(0) },
        );
        id
    }

    /// Records that no reader holds the version any longer.  References are
    /// never regained: a dropped handle stays dropped.
    pub fn observe_unreferenced(&mut self, id: usize)
        requires
            old(self).wf(),
            id < old(self).tasks@.len(),
        ensures
            final(self).wf(),
            final(self).tasks@.len() == old(self).tasks@.len(),
            forall|i: int|
                0 <= i < old(self).tasks@.len() && i != id ==> final(self).tasks@[i] == old(
                    self,
                ).tasks@[i],
            final(self).tasks@[id as int]@ == (GcTaskView {
                version: old(self).tasks@[id as int]@.version,
                referenced: false,
                deleted: old(self).tasks@[id as int]@.deleted,
                delivered: old(self).tasks@[id as int]@.delivered,
            }),
    {
        let version = self.tasks[id].version.duplicate();
        let deleted = self.tasks[id].deleted;
        let ghost delivered = self.tasks@[id as int]@.delivered;
        self.tasks.set(
            id,
            GcTask { version, referenced: false, deleted, delivered: Ghost(delivered) },
        );
    }

    /// Hands out a version for deletion.  The version is yielded exactly
    /// when it is unreferenced and was never handed out before, and yielding
    /// it counts as its one delivery; in every other state nothing changes
    /// and nothing is yielded.
    pub fn collect(&mut self, id: usize) -> (r: Option<ArchiveFileInfo>)
        requires
            old(self).wf(),
            id < old(self).tasks@.len(),
        ensures
            final(self).wf(),
            final(self).tasks@.len() == old(self).tasks@.len(),
            forall|i: int|
                0 <= i < old(self).tasks@.len() && i != id ==> final(self).tasks@[i] == old(
                    self,
                ).tasks@[i],
            match r {
                Some(v) => {
                    &&& !old(self).tasks@[id as int]@.referenced
                    &&& old(self).tasks@[id as int]@.delivered == 0
                    &&& v@ == old(self).tasks@[id as int]@.version
                    &&& final(self).tasks@[id as int]@ == (GcTaskView {
                        version: old(self).tasks@[id as int]@.version,
                        referenced: false,
                        deleted: true,
                        delivered: 1,
                    })
                },
                None => {
                    &&& old(self).tasks@[id as int]@.referenced || old(
                        self,
                    ).tasks@[id as int]@.delivered == 1
                    &&& final(self).tasks@[id as int] == old(self).tasks@[id as int]
                },
            },
    {
        if self.tasks[id].referenced || self.tasks[id].deleted {
            return None;
        }
        let version = self.tasks[id].version.duplicate();
        let out = self.tasks[id].version.duplicate();
        self.tasks.set(
            id,
            GcTask { version, referenced: false, deleted: true, delivered: Ghost(1) },
        );
        Some(out)
    }
}

/// A referenced version is never deleted: as long as any reader obtained
/// before the hot-swap is still held, the prior version's files are intact,
/// so that reader can complete its lookup.
pub proof fn lemma_referenced_never_deleted(g: DeferredGc, id: int)
    requires
        g.wf(),
        0 <= id < g.tasks@.len(),
        g.tasks@[id]@.referenced,
    ensures
        !g.tasks@[id]@.deleted,
        g.tasks@[id]@.delivered == 0,
{
}

/// Deletion is exactly once, under any sequence of operations: every
/// reachable ledger hands out each version at most once (`delivered <= 1`),
/// and a version whose last reference dropped and which was never handed out
/// is not yet deleted — the next `collect` must yield it, so none leaks.
pub proof fn lemma_delete_exactly_once(g: DeferredGc, id: int)
    requires
        g.wf(),
        0 <= id < g.tasks@.len(),
    ensures
        g.tasks@[id]@.delivered <= 1,
        (!g.tasks@[id]@.referenced && g.tasks@[id]@.delivered == 0) ==> !g.tasks@[id]@.deleted,
{
}

} // verus!
