//! The archive store: one current version per tag.
//!
//! The store is the in-memory index of the on-disk archive cache.  Each entry
//! records a tag's current version: its canonical file name, the upstream
//! modification time `mtime` embedded in that name, and the last successful
//! upstream check `utime`.  The index holds at most one entry per tag; older
//! same-tag files are cleanup targets.  The I/O shell publishes snapshots of
//! this structure and performs the file operations the contracts describe.

use vstd::prelude::*;
use vstd::pervasive::VecAdditionalExecFns;
use crate::names::{archive_name_of, format_archive_name, valid_tag};
use crate::time::UtcTime;

verus! {

/// A tag's current archive version.  `path` is the file name within the data
/// directory, always the canonical `<tag>-<stamp>.tar.gz` of `tag` and
/// `mtime`.
pub struct ArchiveFileInfo {
    pub tag: Vec<u8>,
    pub path: Vec<u8>,
    pub mtime: UtcTime,
    pub utime: UtcTime,
}

/// The mathematical content of an [`ArchiveFileInfo`].
pub struct VersionView {
    pub tag: Seq<u8>,
    pub path: Seq<u8>,
    pub mtime: UtcTime,
    pub utime: UtcTime,
}

impl VersionView {
    /// Well-formed: valid tag, valid instants, and the canonical file name.
    pub open spec fn wf(self) -> bool {
        &&& valid_tag(self.tag)
        &&& self.mtime.valid()
        &&& self.utime.valid()
        &&& self.path == archive_name_of(self.tag, self.mtime)
    }
}

impl View for ArchiveFileInfo {
    type V = VersionView;

    open spec fn view(&self) -> VersionView {
        VersionView { tag: self.tag@, path: self.path@, mtime: self.mtime, utime: self.utime }
    }
}

impl ArchiveFileInfo {
    /// A copy with the same view.
    pub fn duplicate(&self) -> (r: Self)
        ensures
            r@ == self@,
    {
        ArchiveFileInfo {
            tag: vstd::slice::slice_to_vec(self.tag.as_slice()),
            path: vstd::slice::slice_to_vec(self.path.as_slice()),
            mtime: self.mtime,
            utime: self.utime,
        }
    }
}

/// The first entry carrying `tag`, scanning left to right.
pub open spec fn seq_find(s: Seq<ArchiveFileInfo>, tag: Seq<u8>) -> Option<VersionView>
    decreases s.len(),
{
    if s.len() == 0 {
        None
    } else if s[0]@.tag == tag {
        Some(s[0]@)
    } else {
        seq_find(s.drop_first(), tag)
    }
}

/// If `tag` first occurs at index `i`, the find yields that entry.
proof fn lemma_find_first(s: Seq<ArchiveFileInfo>, tag: Seq<u8>, i: int)
    requires
        0 <= i < s.len(),
        s[i]@.tag == tag,
        forall|j: int| 0 <= j < i ==> (#[trigger] s[j])@.tag != tag,
    ensures
        seq_find(s, tag) == Some(s[i]@),
    decreases i,
{
    if i == 0 {
    } else {
        assert(s[0]@.tag != tag);
        lemma_find_first(s.drop_first(), tag, i - 1);
    }
}

/// If no entry carries `tag`, the find yields nothing.
proof fn lemma_find_absent(s: Seq<ArchiveFileInfo>, tag: Seq<u8>)
    requires
        forall|j: int| 0 <= j < s.len() ==> (#[trigger] s[j])@.tag != tag,
    ensures
        seq_find(s, tag) is None,
    decreases s.len(),
{
    if s.len() > 0 {
        lemma_find_absent(s.drop_first(), tag);
    }
}

/// Replacing an entry of another tag leaves a tag's find unchanged.
proof fn lemma_find_update_other(
    s: Seq<ArchiveFileInfo>,
    i: int,
    v: ArchiveFileInfo,
    tag: Seq<u8>,
)
    requires
        0 <= i < s.len(),
        s[i]@.tag != tag,
        v@.tag != tag,
    ensures
        seq_find(s.update(i, v), tag) == seq_find(s, tag),
    decreases i,
{
    let s2 = s.update(i, v);
    if i == 0 {
        assert(s2.drop_first() =~= s.drop_first());
    } else {
        assert(s2[0] == s[0]);
        if s[0]@.tag == tag {
        } else {
            assert(s2.drop_first() =~= s.drop_first().update(i - 1, v));
            lemma_find_update_other(s.drop_first(), i - 1, v, tag);
        }
    }
}

/// Appending an entry changes only its own tag's find, and only if that tag
/// was absent.
proof fn lemma_find_push(s: Seq<ArchiveFileInfo>, v: ArchiveFileInfo, tag: Seq<u8>)
    ensures
        seq_find(s.push(v), tag) == if seq_find(s, tag) is Some {
            seq_find(s, tag)
        } else if v@.tag == tag {
            Some(v@)
        } else {
            None::<VersionView>
        },
    decreases s.len(),
{
    if s.len() == 0 {
        assert(s.push(v)[0] == v);
        assert(s.push(v).drop_first() =~= Seq::<ArchiveFileInfo>::empty());
        assert(seq_find(Seq::<ArchiveFileInfo>::empty(), tag) is None);
        assert(seq_find(s, tag) is None);
    } else {
        assert(s.push(v)[0] == s[0]);
        assert(s.push(v).drop_first() =~= s.drop_first().push(v));
        lemma_find_push(s.drop_first(), v, tag);
    }
}

/// Removing an entry of another tag leaves a tag's find unchanged.
proof fn lemma_find_remove_other(s: Seq<ArchiveFileInfo>, i: int, tag: Seq<u8>)
    requires
        0 <= i < s.len(),
        s[i]@.tag != tag,
    ensures
        seq_find(s.remove(i), tag) == seq_find(s, tag),
    decreases i,
{
    let s2 = s.remove(i);
    if i == 0 {
        assert(s2 =~= s.drop_first());
    } else {
        assert(s2[0] == s[0]);
        if s[0]@.tag != tag {
            assert(s2.drop_first() =~= s.drop_first().remove(i - 1));
            lemma_find_remove_other(s.drop_first(), i - 1, tag);
        }
    }
}

/// A find that yields nothing means no entry carries the tag.
proof fn lemma_find_none_means_absent(s: Seq<ArchiveFileInfo>, tag: Seq<u8>)
    requires
        seq_find(s, tag) is None,
    ensures
        forall|j: int| 0 <= j < s.len() ==> (#[trigger] s[j])@.tag != tag,
    decreases s.len(),
{
    if s.len() > 0 {
        lemma_find_none_means_absent(s.drop_first(), tag);
        assert forall|j: int| 0 <= j < s.len() implies (#[trigger] s[j])@.tag != tag by {
            if j > 0 {
                assert(s.drop_first()[j - 1] == s[j]);
            }
        }
    }
}

/// What a find yields out of a well-formed entry sequence is well-formed.
proof fn lemma_find_wf(s: Seq<ArchiveFileInfo>, tag: Seq<u8>)
    requires
        forall|i: int| 0 <= i < s.len() ==> (#[trigger] s[i])@.wf(),
        seq_find(s, tag) is Some,
    ensures
        seq_find(s, tag)->Some_0.wf(),
        seq_find(s, tag)->Some_0.tag == tag,
    decreases s.len(),
{
    if s.len() > 0 && s[0]@.tag != tag {
        lemma_find_wf(s.drop_first(), tag);
    }
}

/// The in-memory archive index: at most one current version per tag.
pub struct ArchiveStore {
    pub entries: Vec<ArchiveFileInfo>,
}

impl ArchiveStore {
    /// Well-formed: every entry well-formed, tags pairwise distinct.
    pub open spec fn wf(self) -> bool {
        &&& forall|i: int| 0 <= i < self.entries@.len() ==> (#[trigger] self.entries@[i])@.wf()
        &&& forall|i: int, j: int|
            0 <= i < j < self.entries@.len() ==> self.entries@[i]@.tag != self.entries@[j]@.tag
    }

    /// The current version of a tag, if any.
    pub open spec fn spec_get(self, tag: Seq<u8>) -> Option<VersionView> {
        seq_find(self.entries@, tag)
    }

    /// An empty index.
    pub fn new() -> (r: ArchiveStore)
        ensures
            r.wf(),
            forall|t: Seq<u8>| r.spec_get(t) is None,
            r.entries@.len() == 0,
    {
        let r = ArchiveStore { entries: Vec::new() };
        assert forall|t: Seq<u8>| r.spec_get(t) is None by {
            lemma_find_absent(r.entries@, t);
        }
        r
    }

    /// Index of the entry carrying `tag`, if present.
    fn find_index(&self, tag: &[u8]) -> (r: Option<usize>)
        ensures
            match r {
                Some(i) => i < self.entries@.len() && self.entries@[i as int]@.tag == tag@
                    && forall|j: int| 0 <= j < i ==> (#[trigger] self.entries@[j])@.tag != tag@,
                None => forall|j: int|
                    0 <= j < self.entries@.len() ==> (#[trigger] self.entries@[j])@.tag != tag@,
            },
    {
        let mut i: usize = 0;
        while i < self.entries.len()
            invariant
                i <= self.entries@.len(),
                forall|j: int| 0 <= j < i ==> (#[trigger] self.entries@[j])@.tag != tag@,
            decreases self.entries@.len() - i,
        {
            if crate::names::bytes_eq(self.entries[i].tag.as_slice(), tag) {
                return Some(i);
            }
            i += 1;
        }
        None
    }

    /// Overwrites the entry at `i` with a same-tag version.
    fn replace_at(&mut self, i: usize, info: ArchiveFileInfo)
        requires
            old(self).wf(),
            i < old(self).entries@.len(),
            info@.wf(),
            info@.tag == old(self).entries@[i as int]@.tag,
        ensures
            final(self).wf(),
            final(self).entries@ == old(self).entries@.update(i as int, info),
            final(self).spec_get(info@.tag) == Some(info@),
            forall|t: Seq<u8>| t != info@.tag ==> final(self).spec_get(t) == old(self).spec_get(t),
    {
        let ghost tag = info@.tag;
        let ghost olds = self.entries@;
        self.entries.set(i, info);
        proof {
            assert forall|a: int, b: int|
                0 <= a < b < self.entries@.len() implies self.entries@[a]@.tag
                != self.entries@[b]@.tag by {
                assert(olds[a]@.tag != olds[b]@.tag);
            }
            assert forall|j: int| 0 <= j < i implies (#[trigger] self.entries@[j])@.tag != tag by {
                assert(olds[j]@.tag != olds[i as int]@.tag);
            }
            lemma_find_first(self.entries@, tag, i as int);
            assert forall|t: Seq<u8>| t != tag implies seq_find(self.entries@, t) == seq_find(
                olds,
                t,
            ) by {
                lemma_find_update_other(olds, i as int, self.entries@[i as int], t);
            }
        }
    }

    /// Appends a version whose tag the index does not yet hold.
    fn insert_absent(&mut self, info: ArchiveFileInfo)
        requires
            old(self).wf(),
            info@.wf(),
            old(self).spec_get(info@.tag) is None,
        ensures
            final(self).wf(),
            final(self).entries@ == old(self).entries@.push(info),
            final(self).spec_get(info@.tag) == Some(info@),
            forall|t: Seq<u8>| t != info@.tag ==> final(self).spec_get(t) == old(self).spec_get(t),
    {
        let ghost tag = info@.tag;
        let ghost olds = self.entries@;
        proof {
            lemma_find_none_means_absent(olds, tag);
        }
        self.entries.push(info);
        proof {
            assert forall|a: int, b: int|
                0 <= a < b < self.entries@.len() implies self.entries@[a]@.tag
                != self.entries@[b]@.tag by {
                if b < olds.len() {
                    assert(olds[a]@.tag != olds[b]@.tag);
                } else {
                    assert(olds[a]@.tag != tag);
                }
            }
            assert forall|t: Seq<u8>| #![auto] true implies seq_find(self.entries@, t) == (
            if seq_find(olds, t) is Some {
                seq_find(olds, t)
            } else if t == tag {
                Some(info@)
            } else {
                None::<VersionView>
            }) by {
                lemma_find_push(olds, self.entries@[olds.len() as int], t);
                assert(self.entries@ == olds.push(info));
            }
        }
    }

    /// Records a successful upstream check at `now`: if the tag has a current
    /// version whose `utime` is older, only that `utime` moves forward — the
    /// effect is exactly [`spec_bump_utime`], and no other tag is touched.
    pub fn bump_utime(&mut self, tag: &[u8], now: &UtcTime)
        requires
            old(self).wf(),
            now.valid(),
        ensures
            final(self).wf(),
            forall|t: Seq<u8>| t != tag@ ==> final(self).spec_get(t) == old(self).spec_get(t),
            match old(self).spec_get(tag@) {
                None => final(self).spec_get(tag@) is None,
                Some(v) => final(self).spec_get(tag@) == Some(spec_bump_utime(v, *now)),
            },
    {
        match self.find_index(tag) {
            None => {
                proof {
                    lemma_find_absent(self.entries@, tag@);
                }
            },
            Some(i) => {
                proof {
                    lemma_find_first(self.entries@, tag@, i as int);
                }
                let cur = self.entries[i].duplicate();
                if cur.utime.before(now) {
                    let updated = ArchiveFileInfo {
                        tag: cur.tag,
                        path: cur.path,
                        mtime: cur.mtime,
                        utime: *now,
                    };
                    self.replace_at(i, updated);
                }
            },
        }
    }

    /// Installs a freshly downloaded version: the tag's current version
    /// becomes `(mtime, utime = now)` under its canonical file name, and the
    /// displaced version, if any, is handed back for deferred cleanup.
    pub fn install(&mut self, tag: &[u8], mtime: &UtcTime, now: &UtcTime) -> (r: (
        ArchiveFileInfo,
        Option<ArchiveFileInfo>,
    ))
        requires
            old(self).wf(),
            valid_tag(tag@),
            mtime.valid(),
            now.valid(),
        ensures
            final(self).wf(),
            r.0@ == (VersionView {
                tag: tag@,
                path: archive_name_of(tag@, *mtime),
                mtime: *mtime,
                utime: *now,
            }),
            final(self).spec_get(tag@) == Some(r.0@),
            forall|t: Seq<u8>| t != tag@ ==> final(self).spec_get(t) == old(self).spec_get(t),
            match r.1 {
                Some(p) => old(self).spec_get(tag@) == Some(p@),
                None => old(self).spec_get(tag@) is None,
            },
    {
        let info = ArchiveFileInfo {
            tag: vstd::slice::slice_to_vec(tag),
            path: format_archive_name(tag, mtime),
            mtime: *mtime,
            utime: *now,
        };
        let out = info.duplicate();
        match self.find_index(tag) {
            None => {
                proof {
                    lemma_find_absent(self.entries@, tag@);
                }
                self.insert_absent(info);
                (out, None)
            },
            Some(i) => {
                proof {
                    lemma_find_first(self.entries@, tag@, i as int);
                }
                let superseded = self.entries[i].duplicate();
                self.replace_at(i, info);
                (out, Some(superseded))
            },
        }
    }

    /// Drops a tag's current version from the index, handing it back: the
    /// tag then has no current version until a later install, and no other
    /// tag is touched.  This is the retraction of a version whose archive
    /// turned out to be unusable.
    pub fn remove_version(&mut self, tag: &[u8]) -> (r: Option<ArchiveFileInfo>)
        requires
            old(self).wf(),
        ensures
            final(self).wf(),
            final(self).spec_get(tag@) is None,
            forall|t: Seq<u8>| t != tag@ ==> final(self).spec_get(t) == old(self).spec_get(t),
            match r {
                Some(v) => old(self).spec_get(tag@) == Some(v@),
                None => old(self).spec_get(tag@) is None,
            },
    {
        match self.find_index(tag) {
            None => {
                proof {
                    lemma_find_absent(self.entries@, tag@);
                }
                None
            },
            Some(i) => {
                proof {
                    lemma_find_first(self.entries@, tag@, i as int);
                }
                let ghost olds = self.entries@;
                let removed = self.entries.remove(i);
                proof {
                    assert(self.entries@ =~= olds.remove(i as int));
                    assert forall|a: int, b: int|
                        0 <= a < b < self.entries@.len() implies self.entries@[a]@.tag
                        != self.entries@[b]@.tag by {
                        if a < i && b < i {
                            assert(olds[a]@.tag != olds[b]@.tag);
                        } else if a < i {
                            assert(olds[a]@.tag != olds[b + 1]@.tag);
                        } else {
                            assert(olds[a + 1]@.tag != olds[b + 1]@.tag);
                        }
                    }
                    assert forall|j: int|
                        0 <= j < self.entries@.len() implies (#[trigger] self.entries@[j])@.tag
                        != tag@ by {
                        if j < i {
                            assert(olds[j]@.tag != olds[i as int]@.tag);
                        } else {
                            assert(olds[j + 1]@.tag != olds[i as int]@.tag);
                        }
                    }
                    lemma_find_absent(self.entries@, tag@);
                    assert forall|t: Seq<u8>| t != tag@ implies seq_find(self.entries@, t)
                        == seq_find(olds, t) by {
                        lemma_find_remove_other(olds, i as int, t);
                    }
                }
                Some(removed)
            },
        }
    }

    /// The refresh decision for a tag at instant `now`, executable mirror of
    /// [`spec_plan_refresh`].
    pub fn plan_refresh(&self, tag: &[u8], now: &UtcTime, interval_secs: u64) -> (r: RefreshPlan)
        requires
            self.wf(),
            now.valid(),
        ensures
            r == spec_plan_refresh(*self, tag@, *now, interval_secs),
    {
        match self.get_latest_archive(tag) {
            None => RefreshPlan::Fetch { if_modified_since: None },
            Some(v) => {
                proof {
                    lemma_find_wf(self.entries@, tag@);
                }
                let now_s: u64 = now.to_seconds();
                let seen_s: u64 = v.utime.to_seconds();
                let fresh: bool = now_s < seen_s || now_s - seen_s < interval_secs;
                if fresh {
                    RefreshPlan::Skip
                } else {
                    RefreshPlan::Fetch { if_modified_since: Some(v.mtime) }
                }
            },
        }
    }

    /// The current version of a tag, as a copy.
    pub fn get_latest_archive(&self, tag: &[u8]) -> (r: Option<ArchiveFileInfo>)
        ensures
            match r {
                Some(v) => self.spec_get(tag@) == Some(v@),
                None => self.spec_get(tag@) is None,
            },
    {
        match self.find_index(tag) {
            Some(i) => {
                proof {
                    lemma_find_first(self.entries@, tag@, i as int);
                }
                Some(self.entries[i].duplicate())
            },
            None => {
                proof {
                    lemma_find_absent(self.entries@, tag@);
                }
                None
            },
        }
    }
}

/// Whether some entry has view `v`.
pub open spec fn contains_view(s: Seq<ArchiveFileInfo>, v: VersionView) -> bool {
    exists|j: int| 0 <= j < s.len() && (#[trigger] s[j])@ == v
}

/// A well-formed index holds at most one version per tag.
pub proof fn lemma_one_version_per_tag(s: ArchiveStore, v1: VersionView, v2: VersionView)
    requires
        s.wf(),
        contains_view(s.entries@, v1),
        contains_view(s.entries@, v2),
        v1.tag == v2.tag,
    ensures
        v1 == v2,
{
    let j1 = choose|j: int| 0 <= j < s.entries@.len() && (#[trigger] s.entries@[j])@ == v1;
    let j2 = choose|j: int| 0 <= j < s.entries@.len() && (#[trigger] s.entries@[j])@ == v2;
    if j1 != j2 {
        assert(s.entries@[j1]@.tag != s.entries@[j2]@.tag);
    }
}

/// Builds the record of a version discovered on disk: the instant read from
/// the `<tag>.timestamp` side file becomes `utime`, defaulting to `mtime`
/// when the side file is absent or unreadable.
pub fn make_archive_info(tag: &[u8], mtime: &UtcTime, side_utime: Option<&UtcTime>) -> (r:
    ArchiveFileInfo)
    requires
        valid_tag(tag@),
        mtime.valid(),
        match side_utime {
            Some(u) => u.valid(),
            None => true,
        },
    ensures
        r@ == (VersionView {
            tag: tag@,
            path: archive_name_of(tag@, *mtime),
            mtime: *mtime,
            utime: match side_utime {
                Some(u) => *u,
                None => *mtime,
            },
        }),
        r@.wf(),
{
    ArchiveFileInfo {
        tag: vstd::slice::slice_to_vec(tag),
        path: format_archive_name(tag, mtime),
        mtime: *mtime,
        utime: match side_utime {
            Some(u) => *u,
            None => *mtime,
        },
    }
}

impl ArchiveStore {
    /// Startup discovery: of the archives found on disk, the newest per tag
    /// becomes the current version; every other file is handed back for
    /// immediate cleanup.  Together with [`ArchiveStore::wf`] this is the
    /// guarantee that no two same-tag archives remain once the cleanup ran:
    /// every candidate either stands in the index or is returned as a loser,
    /// and each loser is strictly older than its tag's surviving version.
    #[verifier::rlimit(100)]
    pub fn discover(candidates: &Vec<ArchiveFileInfo>) -> (r: (ArchiveStore, Vec<ArchiveFileInfo>))
        requires
            forall|i: int| 0 <= i < candidates@.len() ==> (#[trigger] candidates@[i])@.wf(),
            forall|i: int, j: int|
                0 <= i < j < candidates@.len() && candidates@[i]@.tag == candidates@[j]@.tag
                    ==> candidates@[i]@.mtime.sec_index() != candidates@[j]@.mtime.sec_index(),
        ensures
            r.0.wf(),
            forall|i: int|
                0 <= i < candidates@.len() ==> r.0.spec_get(
                    (#[trigger] candidates@[i])@.tag,
                ) is Some,
            forall|e: int|
                0 <= e < r.0.entries@.len() ==> contains_view(
                    candidates@,
                    (#[trigger] r.0.entries@[e])@,
                ),
            forall|i: int|
                0 <= i < candidates@.len() ==> (#[trigger] candidates@[i])@.mtime.sec_index()
                    <= r.0.spec_get(candidates@[i]@.tag)->Some_0.mtime.sec_index(),
            forall|l: int|
                0 <= l < r.1@.len() ==> {
                    &&& contains_view(candidates@, (#[trigger] r.1@[l])@)
                    &&& r.0.spec_get(r.1@[l]@.tag) is Some
                    &&& r.1@[l]@.mtime.sec_index() < r.0.spec_get(
                        r.1@[l]@.tag,
                    )->Some_0.mtime.sec_index()
                },
            forall|i: int|
                0 <= i < candidates@.len() ==> contains_view(
                    r.0.entries@,
                    (#[trigger] candidates@[i])@,
                ) || contains_view(r.1@, candidates@[i]@),
    {
        let mut store = ArchiveStore::new();
        let mut losers: Vec<ArchiveFileInfo> = Vec::new();
        let mut k: usize = 0;
        while k < candidates.len()
            invariant
                store.wf(),
                k <= candidates@.len(),
                forall|i: int| 0 <= i < candidates@.len() ==> (#[trigger] candidates@[i])@.wf(),
                forall|i: int, j: int|
                    0 <= i < j < candidates@.len() && candidates@[i]@.tag == candidates@[j]@.tag
                        ==> candidates@[i]@.mtime.sec_index()
                        != candidates@[j]@.mtime.sec_index(),
                forall|i: int|
                    0 <= i < k ==> store.spec_get((#[trigger] candidates@[i])@.tag) is Some,
                forall|e: int|
                    0 <= e < store.entries@.len() ==> exists|j: int|
                        0 <= j < k && (#[trigger] candidates@[j])@ == (#[trigger] store.entries@[e])@,
                forall|i: int|
                    0 <= i < k ==> (#[trigger] candidates@[i])@.mtime.sec_index() <= store.spec_get(
                        candidates@[i]@.tag,
                    )->Some_0.mtime.sec_index(),
                forall|l: int|
                    0 <= l < losers@.len() ==> {
                        &&& exists|j: int|
                            0 <= j < k && (#[trigger] candidates@[j])@ == (#[trigger] losers@[l])@
                        &&& store.spec_get(losers@[l]@.tag) is Some
                        &&& losers@[l]@.mtime.sec_index() < store.spec_get(
                            losers@[l]@.tag,
                        )->Some_0.mtime.sec_index()
                    },
                forall|i: int|
                    0 <= i < k ==> contains_view(store.entries@, (#[trigger] candidates@[i])@)
                        || contains_view(losers@, candidates@[i]@),
            decreases candidates@.len() - k,
        {
            let c = candidates[k].duplicate();
            let ghost cval = c;
            let ghost pre_entries = store.entries@;
            let ghost pre_losers = losers@;
            match store.find_index(c.tag.as_slice()) {
                None => {
                    proof {
                        lemma_find_absent(store.entries@, c@.tag);
                    }
                    store.insert_absent(c);
                    proof {
                        assert(store.entries@ == pre_entries.push(cval));
                        assert forall|i: int|
                            0 <= i < k + 1 implies contains_view(
                            store.entries@,
                            (#[trigger] candidates@[i])@,
                        ) || contains_view(losers@, candidates@[i]@) by {
                            if i < k {
                                if contains_view(pre_entries, candidates@[i]@) {
                                    let e = choose|e: int|
                                        0 <= e < pre_entries.len() && (#[trigger] pre_entries[e])@
                                            == candidates@[i]@;
                                    assert(store.entries@[e]@ == candidates@[i]@);
                                }
                            } else {
                                assert(store.entries@[pre_entries.len() as int]@
                                    == candidates@[i]@);
                            }
                        }
                    }
                },
                Some(idx) => {
                    proof {
                        lemma_find_first(store.entries@, c@.tag, idx as int);
                    }
                    let w = store.entries[idx].duplicate();
                    let ghost wval = w;
                    let ghost jw = choose|j: int|
                        0 <= j < k && (#[trigger] candidates@[j])@ == pre_entries[idx as int]@;
                    if w.mtime.before(&c.mtime) {
                        store.replace_at(idx, c);
                        losers.push(w);
                        proof {
                            assert(store.entries@ == pre_entries.update(idx as int, cval));
                            assert(losers@ == pre_losers.push(wval));
                            assert(wval@ == candidates@[jw]@);
                            assert forall|e: int|
                                0 <= e < store.entries@.len() implies exists|j: int|
                                0 <= j < k + 1 && (#[trigger] candidates@[j])@
                                    == (#[trigger] store.entries@[e])@ by {
                                if e == idx {
                                    assert(candidates@[k as int]@ == store.entries@[e]@);
                                } else {
                                    let j0 = choose|j: int|
                                        0 <= j < k && (#[trigger] candidates@[j])@
                                            == pre_entries[e]@;
                                    assert(candidates@[j0]@ == store.entries@[e]@);
                                }
                            }
                            assert forall|i: int|
                                0 <= i < k + 1 implies contains_view(
                                store.entries@,
                                (#[trigger] candidates@[i])@,
                            ) || contains_view(losers@, candidates@[i]@) by {
                                if i < k {
                                    if contains_view(pre_entries, candidates@[i]@) {
                                        let e = choose|e: int|
                                            0 <= e < pre_entries.len() && (#[trigger]
                                            pre_entries[e])@ == candidates@[i]@;
                                        if e == idx {
                                            assert(losers@[pre_losers.len() as int]@
                                                == candidates@[i]@);
                                        } else {
                                            assert(store.entries@[e]@ == candidates@[i]@);
                                        }
                                    } else {
                                        let l0 = choose|l: int|
                                            0 <= l < pre_losers.len() && (#[trigger]
                                            pre_losers[l])@ == candidates@[i]@;
                                        assert(losers@[l0]@ == candidates@[i]@);
                                    }
                                } else {
                                    assert(store.entries@[idx as int]@ == candidates@[i]@);
                                }
                            }
                        }
                    } else {
                        losers.push(c);
                        proof {
                            assert(losers@ == pre_losers.push(cval));
                            assert(candidates@[jw]@.tag == candidates@[k as int]@.tag);
                            if jw != k {
                                assert(candidates@[jw]@.mtime.sec_index()
                                    != candidates@[k as int]@.mtime.sec_index());
                            }
                            assert(candidates@[k as int]@.mtime.sec_index()
                                < pre_entries[idx as int]@.mtime.sec_index());
                            assert forall|i: int|
                                0 <= i < k + 1 implies contains_view(
                                store.entries@,
                                (#[trigger] candidates@[i])@,
                            ) || contains_view(losers@, candidates@[i]@) by {
                                if i < k {
                                    if contains_view(pre_losers, candidates@[i]@) {
                                        let l0 = choose|l: int|
                                            0 <= l < pre_losers.len() && (#[trigger]
                                            pre_losers[l])@ == candidates@[i]@;
                                        assert(losers@[l0]@ == candidates@[i]@);
                                    }
                                } else {
                                    assert(losers@[pre_losers.len() as int]@ == candidates@[i]@);
                                }
                            }
                        }
                    }
                },
            }
            k += 1;
        }
        (store, losers)
    }
}

/// How a fetch authenticates against the upstream.
#[derive(Debug)]
pub enum ArchiveFileAuth {
    /// No authentication.
    NoAuth,
    /// `Authorization: Bearer <token>`.
    Bearer(Vec<u8>),
    /// HTTP basic authentication, the password optional.
    Basic(Vec<u8>, Option<Vec<u8>>),
}

/// What recording a successful check at `now` does to a version: its
/// `utime` moves forward to `now` if older, and nothing else changes.
pub open spec fn spec_bump_utime(v: VersionView, now: UtcTime) -> VersionView {
    VersionView {
        tag: v.tag,
        path: v.path,
        mtime: v.mtime,
        utime: if v.utime.sec_index() < now.sec_index() {
            now
        } else {
            v.utime
        },
    }
}

/// A `304 Not Modified` answer rewrites only the check time: bumping a
/// version keeps its tag, its `mtime` and its canonical file name — hence
/// the archive bytes that name points at — and preserves well-formedness.
/// With [`interpret_response`] mapping `304` to a bump and nothing else,
/// this is all a `304` can do to the index.
pub proof fn lemma_not_modified_preserves_version(v: VersionView, now: UtcTime)
    ensures
        spec_bump_utime(v, now).tag == v.tag,
        spec_bump_utime(v, now).mtime == v.mtime,
        spec_bump_utime(v, now).path == v.path,
        v.wf() && now.valid() ==> spec_bump_utime(v, now).wf(),
{
}

/// What the refresher decides to do for a tag before touching the network.
#[derive(Debug)]
pub enum RefreshPlan {
    /// The current version was checked recently enough: no network call.
    Skip,
    /// Issue a GET, conditional on the current version's `mtime` if one
    /// exists.
    Fetch { if_modified_since: Option<UtcTime> },
}

/// The refresh decision: skip while the tag's last successful check lies
/// within the interval, otherwise fetch, conditionally if a version exists.
pub open spec fn spec_plan_refresh(
    s: ArchiveStore,
    tag: Seq<u8>,
    now: UtcTime,
    interval_secs: u64,
) -> RefreshPlan {
    match s.spec_get(tag) {
        Some(v) => if now.sec_index() < v.utime.sec_index() + interval_secs {
            RefreshPlan::Skip
        } else {
            RefreshPlan::Fetch { if_modified_since: Some(v.mtime) }
        },
        None => RefreshPlan::Fetch { if_modified_since: None },
    }
}

/// What a fetch's response obliges the store to do.
#[derive(Debug)]
pub enum RefreshStep {
    /// `304 Not Modified`: record the successful check, change nothing else.
    BumpOnly,
    /// A success: install a new version stamped `mtime`.
    Install { mtime: UtcTime },
    /// Any other status is a failure.
    Fail { status: u16 },
}

/// Reads a fetch response: `304` only bumps `utime`; a `2xx` installs a
/// version stamped with the `Last-Modified` instant, or with `now` when that
/// header is absent or unreadable; anything else fails with the status.
pub fn interpret_response(status: u16, last_modified: Option<&UtcTime>, now: &UtcTime) -> (r:
    RefreshStep)
    ensures
        r == if status == 304 {
            RefreshStep::BumpOnly
        } else if 200 <= status < 300 {
            RefreshStep::Install {
                mtime: match last_modified {
                    Some(t) => *t,
                    None => *now,
                },
            }
        } else {
            RefreshStep::Fail { status }
        },
{
    if status == 304 {
        RefreshStep::BumpOnly
    } else if 200 <= status && status < 300 {
        match last_modified {
            Some(t) => RefreshStep::Install { mtime: *t },
            None => RefreshStep::Install { mtime: *now },
        }
    } else {
        RefreshStep::Fail { status }
    }
}

/// Refresher idempotence: once a refresh at `now1` has recorded a successful
/// check (a `304` bump or an install both set `utime = now1`), any further
/// refresh of that tag within `interval_secs` plans `Skip` — it issues no
/// network call and can produce no new version.  So two consecutive refreshes
/// within the interval make exactly one call.
pub proof fn lemma_refresh_idempotent(
    s: ArchiveStore,
    tag: Seq<u8>,
    now1: UtcTime,
    now2: UtcTime,
    interval_secs: u64,
)
    requires
        s.spec_get(tag) matches Some(v) && v.utime == now1,
        now2.sec_index() < now1.sec_index() + interval_secs,
    ensures
        spec_plan_refresh(s, tag, now2, interval_secs) == RefreshPlan::Skip,
{
}

} // verus!
