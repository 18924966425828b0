//! The reader pool: one slot per configured edition.
//!
//! Each slot holds the edition's current database reader, if one is loaded,
//! and the most recent error observed while loading or refreshing it.  The
//! pool is built once at startup — from then on a slot exists for every
//! configured edition — and a hot-swap replaces a slot's reader atomically,
//! handing the prior reader back so its backing files can be cleaned up once
//! no lookup holds it (see the deferred cleanup ledger).

use vstd::prelude::*;
use crate::errors::MaxMindServiceError;
use crate::mmdb::MmdbReaderHandle;
use crate::names::mmdb_suffix;
use crate::store::{ArchiveFileInfo, VersionView};
use crate::time::UtcTime;

verus! {

/// The views of a sequence of strings.
pub open spec fn strings_view(v: Seq<String>) -> Seq<Seq<char>> {
    v.map_values(|s: String| s@)
}

/// Copies a vector of strings.
pub fn clone_strings(v: &Vec<String>) -> (r: Vec<String>)
    ensures
        strings_view(r@) == strings_view(v@),
{
    let mut r: Vec<String> = Vec::new();
    let mut i: usize = 0;
    while i < v.len()
        invariant
            i <= v@.len(),
            r@.len() == i,
            forall|j: int| 0 <= j < i ==> (#[trigger] r@[j])@ == v@[j]@,
        decreases v@.len() - i,
    {
        r.push(v[i].clone());
        i += 1;
    }
    assert(strings_view(r@) =~~= strings_view(v@));
    r
}

/// An edition's loaded database: the open reader, the file it was mapped
/// from, its metadata, and the archive version it came out of.
pub struct MaxMindDbReader {
    pub path: Vec<u8>,
    pub reader: MmdbReaderHandle,
    pub file_size: u64,
    pub archive_file_size: Option<u64>,
    pub build_epoch: u64,
    pub database_type: Vec<u8>,
    pub languages: Vec<String>,
    pub info: ArchiveFileInfo,
}

/// The mathematical content of a [`MaxMindDbReader`]; the open reader itself
/// is opaque.
pub struct ReaderHandleView {
    pub path: Seq<u8>,
    pub file_size: u64,
    pub archive_file_size: Option<u64>,
    pub build_epoch: u64,
    pub database_type: Seq<u8>,
    pub languages: Seq<Seq<char>>,
    pub info: VersionView,
}

impl View for MaxMindDbReader {
    type V = ReaderHandleView;

    open spec fn view(&self) -> ReaderHandleView {
        ReaderHandleView {
            path: self.path@,
            file_size: self.file_size,
            archive_file_size: self.archive_file_size,
            build_epoch: self.build_epoch,
            database_type: self.database_type@,
            languages: strings_view(self.languages@),
            info: self.info@,
        }
    }
}

impl ReaderHandleView {
    /// Well-formed: the version is well-formed and the database path is the
    /// canonical extraction of the archive path — its `.tar.gz` replaced by
    /// `.mmdb`.
    pub open spec fn wf(self) -> bool {
        &&& self.info.wf()
        &&& self.path == self.info.path.take(self.info.path.len() - 7) + mmdb_suffix()
    }
}

/// Builds the reader handle of a freshly opened database.  The database path
/// is derived here from the archive's canonical name, so every handle
/// satisfies the extraction invariant by construction; the metadata is read
/// once from the open reader.
fn assemble_reader(
    info: ArchiveFileInfo,
    reader: MmdbReaderHandle,
    file_size: u64,
    archive_file_size: u64,
) -> (r: MaxMindDbReader)
    requires
        info@.wf(),
    ensures
        r@.wf(),
        r@.info == info@,
        r@.file_size == file_size,
        r@.archive_file_size == Some(archive_file_size),
{
    proof {
        crate::names::lemma_canonical_name_stamp(info@.tag, info@.mtime);
    }
    let path = crate::names::mmdb_file_name(info.path.as_slice());
    let database_type = crate::mmdb::reader_database_type(&reader);
    let build_epoch = crate::mmdb::reader_build_epoch(&reader);
    let languages = crate::mmdb::reader_languages(&reader);
    MaxMindDbReader {
        path,
        reader,
        file_size,
        archive_file_size: Some(archive_file_size),
        build_epoch,
        database_type,
        languages,
        info,
    }
}

/// Opens an edition's database and builds its reader handle: the file at
/// `mmdb_full_path` — the canonical extraction of the version's archive,
/// resolved within the data directory — is memory-mapped, and the handle
/// records its metadata and the version it came out of.  An unreadable file
/// is refused with the reader's message.
pub fn load_reader(
    info: ArchiveFileInfo,
    mmdb_full_path: &[u8],
    file_size: u64,
    archive_file_size: u64,
) -> (r: Result<MaxMindDbReader, Vec<u8>>)
    requires
        info@.wf(),
    ensures
        match r {
            Ok(h) => h@.wf() && h@.info == info@ && h@.file_size == file_size
                && h@.archive_file_size == Some(archive_file_size),
            Err(_) => true,
        },
{
    match crate::mmdb::open_mmdb(mmdb_full_path) {
        Ok(handle) => Ok(assemble_reader(info, handle, file_size, archive_file_size)),
        Err(e) => Err(vstd::string::StrSliceExecFns::as_bytes_vec(e.as_str())),
    }
}

/// One configured edition: the current reader and the error slot.
pub struct ReaderSlot {
    pub edition: Vec<u8>,
    pub reader: Option<MaxMindDbReader>,
    pub error: Option<Vec<u8>>,
}

/// The mathematical content of a [`ReaderSlot`].
pub struct SlotView {
    pub edition: Seq<u8>,
    pub reader: Option<ReaderHandleView>,
    pub error: Option<Seq<u8>>,
}

impl View for ReaderSlot {
    type V = SlotView;

    open spec fn view(&self) -> SlotView {
        SlotView {
            edition: self.edition@,
            reader: match self.reader {
                Some(ref h) => Some(h@),
                None => None,
            },
            error: match self.error {
                Some(ref m) => Some(m@),
                None => None,
            },
        }
    }
}

/// The first slot of `tag`, scanning left to right.
pub open spec fn slot_find(s: Seq<ReaderSlot>, tag: Seq<u8>) -> Option<SlotView>
    decreases s.len(),
{
    if s.len() == 0 {
        None
    } else if s[0]@.edition == tag {
        Some(s[0]@)
    } else {
        slot_find(s.drop_first(), tag)
    }
}

/// If `tag` first occurs at index `i`, the find yields that slot.
proof fn lemma_slot_find_first(s: Seq<ReaderSlot>, tag: Seq<u8>, i: int)
    requires
        0 <= i < s.len(),
        s[i]@.edition == tag,
        forall|j: int| 0 <= j < i ==> (#[trigger] s[j])@.edition != tag,
    ensures
        slot_find(s, tag) == Some(s[i]@),
    decreases i,
{
    if i > 0 {
        assert(s[0]@.edition != tag);
        lemma_slot_find_first(s.drop_first(), tag, i - 1);
    }
}

/// If no slot carries `tag`, the find yields nothing.
proof fn lemma_slot_find_absent(s: Seq<ReaderSlot>, tag: Seq<u8>)
    requires
        forall|j: int| 0 <= j < s.len() ==> (#[trigger] s[j])@.edition != tag,
    ensures
        slot_find(s, tag) is None,
    decreases s.len(),
{
    if s.len() > 0 {
        lemma_slot_find_absent(s.drop_first(), tag);
    }
}

/// Replacing a slot of another edition leaves an edition's find unchanged.
proof fn lemma_slot_find_update_other(s: Seq<ReaderSlot>, i: int, v: ReaderSlot, tag: Seq<u8>)
    requires
        0 <= i < s.len(),
        s[i]@.edition != tag,
        v@.edition != tag,
    ensures
        slot_find(s.update(i, v), tag) == slot_find(s, tag),
    decreases i,
{
    let s2 = s.update(i, v);
    if i == 0 {
        assert(s2.drop_first() =~= s.drop_first());
    } else {
        assert(s2[0] == s[0]);
        if s[0]@.edition != tag {
            assert(s2.drop_first() =~= s.drop_first().update(i - 1, v));
            lemma_slot_find_update_other(s.drop_first(), i - 1, v, tag);
        }
    }
}

/// Appending a slot changes only its own edition's find, and only if that
/// edition was absent.
proof fn lemma_slot_find_push(s: Seq<ReaderSlot>, v: ReaderSlot, tag: Seq<u8>)
    ensures
        slot_find(s.push(v), tag) == if slot_find(s, tag) is Some {
            slot_find(s, tag)
        } else if v@.edition == tag {
            Some(v@)
        } else {
            None::<SlotView>
        },
    decreases s.len(),
{
    if s.len() == 0 {
        assert(s.push(v)[0] == v);
        assert(s.push(v).drop_first() =~= Seq::<ReaderSlot>::empty());
        assert(slot_find(Seq::<ReaderSlot>::empty(), tag) is None);
        assert(slot_find(s, tag) is None);
    } else {
        assert(s.push(v)[0] == s[0]);
        assert(s.push(v).drop_first() =~= s.drop_first().push(v));
        lemma_slot_find_push(s.drop_first(), v, tag);
    }
}

/// The reader pool of the lookup service.
pub struct MaxMindService {
    pub slots: Vec<ReaderSlot>,
}

impl MaxMindService {
    /// Well-formed: editions pairwise distinct, and every loaded reader
    /// belongs to its slot's edition.
    pub open spec fn wf(self) -> bool {
        &&& forall|i: int, j: int|
            0 <= i < j < self.slots@.len() ==> self.slots@[i]@.edition != self.slots@[j]@.edition
        &&& forall|i: int|
            0 <= i < self.slots@.len() ==> match (#[trigger] self.slots@[i])@.reader {
                Some(h) => h.wf() && h.info.tag == self.slots@[i]@.edition,
                None => true,
            }
    }

    /// The slot of an edition, if configured.
    pub open spec fn spec_slot(self, tag: Seq<u8>) -> Option<SlotView> {
        slot_find(self.slots@, tag)
    }

    /// The edition a lookup resolves to: the requested one, or the first
    /// configured edition.
    pub open spec fn spec_resolved(self, edition: Option<Seq<u8>>) -> Option<Seq<u8>> {
        match edition {
            Some(t) => Some(t),
            None => if self.slots@.len() > 0 {
                Some(self.slots@[0]@.edition)
            } else {
                None
            },
        }
    }

    /// Builds the pool at startup: one empty slot per configured edition, in
    /// configured order, duplicates collapsing into the first occurrence.
    /// This is the startup guarantee that a reader slot and an error slot
    /// exist for every configured edition — both still empty — and for no
    /// other key; the first slot carries the first configured edition, the
    /// one lookups fall back to.
    pub fn new(editions: &Vec<Vec<u8>>) -> (r: MaxMindService)
        ensures
            r.wf(),
            forall|i: int|
                0 <= i < editions@.len() ==> r.spec_slot((#[trigger] editions@[i])@) == Some(
                    SlotView {
                        edition: editions@[i]@,
                        reader: None::<ReaderHandleView>,
                        error: None::<Seq<u8>>,
                    },
                ),
            forall|e: int|
                0 <= e < r.slots@.len() ==> exists|i: int|
                    0 <= i < editions@.len() && (#[trigger] r.slots@[e])@.edition == (
                    #[trigger] editions@[i])@,
            editions@.len() > 0 ==> r.slots@.len() > 0 && r.slots@[0]@.edition == editions@[0]@,
    {
        let mut r = MaxMindService { slots: Vec::new() };
        let mut k: usize = 0;
        while k < editions.len()
            invariant
                r.wf(),
                k <= editions@.len(),
                forall|i: int|
                    0 <= i < k ==> r.spec_slot((#[trigger] editions@[i])@) == Some(
                        SlotView {
                            edition: editions@[i]@,
                            reader: None::<ReaderHandleView>,
                            error: None::<Seq<u8>>,
                        },
                    ),
                forall|e: int|
                    0 <= e < r.slots@.len() ==> (#[trigger] r.slots@[e])@ == (SlotView {
                        edition: r.slots@[e]@.edition,
                        reader: None::<ReaderHandleView>,
                        error: None::<Seq<u8>>,
                    }),
                forall|e: int|
                    0 <= e < r.slots@.len() ==> exists|i: int|
                        0 <= i < k && (#[trigger] r.slots@[e])@.edition == (
                        #[trigger] editions@[i])@,
                k > 0 ==> r.slots@.len() > 0 && r.slots@[0]@.edition == editions@[0]@,
            decreases editions@.len() - k,
        {
            let tag: &[u8] = editions[k].as_slice();
            let ghost pre = r.slots@;
            match r.find_slot(tag) {
                Some(i) => {
                    proof {
                        lemma_slot_find_first(r.slots@, tag@, i as int);
                        assert(r.slots@[i as int]@ == (SlotView {
                            edition: tag@,
                            reader: None::<ReaderHandleView>,
                            error: None::<Seq<u8>>,
                        }));
                    }
                },
                None => {
                    let slot = ReaderSlot {
                        edition: vstd::slice::slice_to_vec(tag),
                        reader: None,
                        error: None,
                    };
                    let ghost sval = slot;
                    r.slots.push(slot);
                    proof {
                        lemma_slot_find_absent(pre, tag@);
                        assert(r.slots@ == pre.push(sval));
                        assert forall|a: int, b: int|
                            0 <= a < b < r.slots@.len() implies r.slots@[a]@.edition
                            != r.slots@[b]@.edition by {
                            if b < pre.len() {
                                assert(pre[a]@.edition != pre[b]@.edition);
                            } else {
                                assert(pre[a]@.edition != tag@);
                            }
                        }
                        assert forall|t: Seq<u8>| #![auto] true implies slot_find(r.slots@, t)
                            == (if slot_find(pre, t) is Some {
                            slot_find(pre, t)
                        } else if sval@.edition == t {
                            Some(sval@)
                        } else {
                            None::<SlotView>
                        }) by {
                            lemma_slot_find_push(pre, sval, t);
                        }
                        assert forall|e: int|
                            0 <= e < r.slots@.len() implies exists|i: int|
                            0 <= i < k + 1 && (#[trigger] r.slots@[e])@.edition == (
                            #[trigger] editions@[i])@ by {
                            if e < pre.len() {
                                let i0 = choose|i: int|
                                    0 <= i < k && (#[trigger] pre[e])@.edition == (
                                    #[trigger] editions@[i])@;
                                assert(r.slots@[e]@.edition == editions@[i0]@);
                            } else {
                                assert(r.slots@[e]@.edition == editions@[k as int]@);
                            }
                        }
                    }
                },
            }
            k += 1;
        }
        r
    }

    /// Index of the slot carrying `tag`, if present.
    fn find_slot(&self, tag: &[u8]) -> (r: Option<usize>)
        ensures
            match r {
                Some(i) => i < self.slots@.len() && self.slots@[i as int]@.edition == tag@
                    && forall|j: int| 0 <= j < i ==> (#[trigger] self.slots@[j])@.edition != tag@,
                None => forall|j: int|
                    0 <= j < self.slots@.len() ==> (#[trigger] self.slots@[j])@.edition != tag@,
            },
    {
        let mut i: usize = 0;
        while i < self.slots.len()
            invariant
                i <= self.slots@.len(),
                forall|j: int| 0 <= j < i ==> (#[trigger] self.slots@[j])@.edition != tag@,
            decreases self.slots@.len() - i,
        {
            if crate::names::bytes_eq(self.slots[i].edition.as_slice(), tag) {
                return Some(i);
            }
            i += 1;
        }
        None
    }

    /// Replaces the slot at `i`, keeping its edition.
    fn swap_slot(
        &mut self,
        i: usize,
        reader: Option<MaxMindDbReader>,
        error: Option<Vec<u8>>,
    ) -> (prior: ReaderSlot)
        requires
            old(self).wf(),
            i < old(self).slots@.len(),
            match reader {
                Some(h) => h@.wf() && h@.info.tag == old(self).slots@[i as int]@.edition,
                None => true,
            },
        ensures
            final(self).wf(),
            prior == old(self).slots@[i as int],
            final(self).slots@.len() == old(self).slots@.len(),
            forall|j: int|
                0 <= j < old(self).slots@.len() && j != i ==> final(self).slots@[j] == old(
                    self,
                ).slots@[j],
            final(self).slots@[i as int]@ == (SlotView {
                edition: old(self).slots@[i as int]@.edition,
                reader: match reader {
                    Some(h) => Some(h@),
                    None => None,
                },
                error: match error {
                    Some(m) => Some(m@),
                    None => None,
                },
            }),
            final(self).spec_slot(old(self).slots@[i as int]@.edition) == Some(
                final(self).slots@[i as int]@,
            ),
            forall|t: Seq<u8>|
                t != old(self).slots@[i as int]@.edition ==> final(self).spec_slot(t) == old(
                    self,
                ).spec_slot(t),
    {
        let ghost olds = self.slots@;
        let ghost tag = self.slots@[i as int]@.edition;
        let prior = self.slots.remove(i);
        let fresh = ReaderSlot {
            edition: vstd::slice::slice_to_vec(prior.edition.as_slice()),
            reader,
            error,
        };
        let ghost fval = fresh;
        self.slots.insert(i, fresh);
        proof {
            assert(self.slots@ =~= olds.update(i as int, fval));
            assert forall|a: int, b: int|
                0 <= a < b < self.slots@.len() implies self.slots@[a]@.edition
                != self.slots@[b]@.edition by {
                assert(olds[a]@.edition != olds[b]@.edition);
            }
            assert forall|j: int| 0 <= j < i implies (#[trigger] self.slots@[j])@.edition
                != tag by {
                assert(olds[j]@.edition != olds[i as int]@.edition);
            }
            lemma_slot_find_first(self.slots@, tag, i as int);
            assert forall|t: Seq<u8>| t != tag implies slot_find(self.slots@, t) == slot_find(
                olds,
                t,
            ) by {
                lemma_slot_find_update_other(olds, i as int, fval, t);
            }
        }
        prior
    }

    /// Hot-swap: publishes a freshly loaded reader as the edition's current
    /// one.  The displaced reader is handed back; its backing files must not
    /// be removed until no lookup holds it.  The error slot and every other
    /// edition are untouched.
    pub fn publish(&mut self, edition: &[u8], reader: MaxMindDbReader) -> (r: Result<
        Option<MaxMindDbReader>,
        MaxMindServiceError,
    >)
        requires
            old(self).wf(),
            reader@.wf(),
            reader@.info.tag == edition@,
        ensures
            final(self).wf(),
            match r {
                Ok(prior) => {
                    &&& old(self).spec_slot(edition@) matches Some(pre)
                    &&& final(self).spec_slot(edition@) == Some(
                        SlotView {
                            edition: edition@,
                            reader: Some(reader@),
                            error: old(self).spec_slot(edition@)->Some_0.error,
                        },
                    )
                    &&& forall|t: Seq<u8>|
                        t != edition@ ==> final(self).spec_slot(t) == old(self).spec_slot(t)
                    &&& match prior {
                        Some(p) => old(self).spec_slot(edition@)->Some_0.reader == Some(p@),
                        None => old(self).spec_slot(edition@)->Some_0.reader is None,
                    }
                },
                Err(e) => {
                    &&& e is UnknownEdition
                    &&& old(self).spec_slot(edition@) is None
                    &&& final(self).slots@ == old(self).slots@
                },
            },
    {
        match self.find_slot(edition) {
            None => {
                proof {
                    lemma_slot_find_absent(self.slots@, edition@);
                }
                Err(MaxMindServiceError::UnknownEdition)
            },
            Some(i) => {
                proof {
                    lemma_slot_find_first(self.slots@, edition@, i as int);
                }
                let error = match &self.slots[i].error {
                    Some(m) => Some(vstd::slice::slice_to_vec(m.as_slice())),
                    None => None,
                };
                let prior = self.swap_slot(i, Some(reader), error);
                Ok(prior.reader)
            },
        }
    }

    /// Records the outcome of an update pass for an edition: the error slot
    /// takes the message of a failure, or is cleared on success.  The loaded
    /// reader and every other edition are untouched; an unconfigured edition
    /// is ignored.
    pub fn record_update_result(&mut self, edition: &[u8], error: Option<Vec<u8>>)
        requires
            old(self).wf(),
        ensures
            final(self).wf(),
            match old(self).spec_slot(edition@) {
                None => final(self).slots@ == old(self).slots@,
                Some(pre) => {
                    &&& final(self).spec_slot(edition@) == Some(
                        SlotView {
                            edition: edition@,
                            reader: pre.reader,
                            error: match error {
                                Some(m) => Some(m@),
                                None => None::<Seq<u8>>,
                            },
                        },
                    )
                    &&& forall|t: Seq<u8>|
                        t != edition@ ==> final(self).spec_slot(t) == old(self).spec_slot(t)
                },
            },
    {
        match self.find_slot(edition) {
            None => {
                proof {
                    lemma_slot_find_absent(self.slots@, edition@);
                }
            },
            Some(i) => {
                proof {
                    lemma_slot_find_first(self.slots@, edition@, i as int);
                }
                let ghost olds = self.slots@;
                let ghost tag = self.slots@[i as int]@.edition;
                let prior = self.slots.remove(i);
                let fresh = ReaderSlot { edition: prior.edition, reader: prior.reader, error };
                let ghost fval = fresh;
                self.slots.insert(i, fresh);
                proof {
                    assert(self.slots@ =~= olds.update(i as int, fval));
                    assert forall|a: int, b: int|
                        0 <= a < b < self.slots@.len() implies self.slots@[a]@.edition
                        != self.slots@[b]@.edition by {
                        assert(olds[a]@.edition != olds[b]@.edition);
                    }
                    assert forall|j: int| 0 <= j < i implies (#[trigger] self.slots@[j])@.edition
                        != tag by {
                        assert(olds[j]@.edition != olds[i as int]@.edition);
                    }
                    lemma_slot_find_first(self.slots@, tag, i as int);
                    assert forall|t: Seq<u8>| t != tag implies slot_find(self.slots@, t)
                        == slot_find(olds, t) by {
                        lemma_slot_find_update_other(olds, i as int, fval, t);
                    }
                }
            },
        }
    }

    /// The first configured edition.
    pub fn default_edition(&self) -> (r: Option<&Vec<u8>>)
        ensures
            match r {
                Some(e) => self.slots@.len() > 0 && e@ == self.slots@[0]@.edition,
                None => self.slots@.len() == 0,
            },
    {
        if self.slots.len() == 0 {
            None
        } else {
            Some(&self.slots[0].edition)
        }
    }

    /// The current reader for an edition, defaulting to the first configured
    /// one: `UnknownEdition` exactly when the resolved edition has no slot
    /// (or none is configured), `MissingDatabase` exactly when the slot holds
    /// no reader.
    pub fn get_reader<'a>(&'a self, edition: Option<&[u8]>) -> (r: Result<
        &'a MaxMindDbReader,
        MaxMindServiceError,
    >)
        requires
            self.wf(),
        ensures
            match r {
                Ok(h) => self.spec_resolved(
                    match edition {
                        Some(e) => Some(e@),
                        None => None,
                    },
                ) matches Some(t) && self.spec_slot(t) matches Some(sv) && sv.reader == Some(h@),
                Err(e) => match e {
                    MaxMindServiceError::UnknownEdition => match self.spec_resolved(
                        match edition {
                            Some(e2) => Some(e2@),
                            None => None,
                        },
                    ) {
                        None => true,
                        Some(t) => self.spec_slot(t) is None,
                    },
                    MaxMindServiceError::MissingDatabase => self.spec_resolved(
                        match edition {
                            Some(e2) => Some(e2@),
                            None => None,
                        },
                    ) matches Some(t) && self.spec_slot(t) matches Some(sv) && sv.reader is None,
                    _ => false,
                },
            },
    {
        let tag: &[u8] = match edition {
            Some(e) => e,
            None => {
                if self.slots.len() == 0 {
                    return Err(MaxMindServiceError::UnknownEdition);
                }
                self.slots[0].edition.as_slice()
            },
        };
        match self.find_slot(tag) {
            None => {
                proof {
                    lemma_slot_find_absent(self.slots@, tag@);
                }
                Err(MaxMindServiceError::UnknownEdition)
            },
            Some(i) => {
                proof {
                    lemma_slot_find_first(self.slots@, tag@, i as int);
                }
                match &self.slots[i].reader {
                    Some(h) => Ok(h),
                    None => Err(MaxMindServiceError::MissingDatabase),
                }
            },
        }
    }

    /// The archive version backing an edition's current reader.
    pub fn get_archive(&self, edition: &[u8]) -> (r: Result<ArchiveFileInfo, MaxMindServiceError>)
        requires
            self.wf(),
        ensures
            match r {
                Ok(info) => self.spec_slot(edition@) matches Some(sv) && sv.reader matches Some(h)
                    && info@ == h.info,
                Err(e) => match e {
                    MaxMindServiceError::UnknownEdition => self.spec_slot(edition@) is None,
                    MaxMindServiceError::MissingDatabase => self.spec_slot(edition@) matches Some(
                        sv,
                    ) && sv.reader is None,
                    _ => false,
                },
            },
    {
        match self.get_reader(Some(edition)) {
            Ok(h) => Ok(h.info.duplicate()),
            Err(e) => Err(e),
        }
    }
}

/// One edition's row of the status report.
pub struct GeoIpDatabaseStatus {
    pub edition: Vec<u8>,
    pub timestamp: Option<u64>,
    pub locales: Vec<String>,
    pub file_size: Option<u64>,
    pub archive_file_size: Option<u64>,
    pub error: Option<Vec<u8>>,
    pub last_update_check: Option<UtcTime>,
}

/// The mathematical content of a [`GeoIpDatabaseStatus`].
pub struct StatusView {
    pub edition: Seq<u8>,
    pub timestamp: Option<u64>,
    pub locales: Seq<Seq<char>>,
    pub file_size: Option<u64>,
    pub archive_file_size: Option<u64>,
    pub error: Option<Seq<u8>>,
    pub last_update_check: Option<UtcTime>,
}

impl View for GeoIpDatabaseStatus {
    type V = StatusView;

    open spec fn view(&self) -> StatusView {
        StatusView {
            edition: self.edition@,
            timestamp: self.timestamp,
            locales: strings_view(self.locales@),
            file_size: self.file_size,
            archive_file_size: self.archive_file_size,
            error: match self.error {
                Some(ref m) => Some(m@),
                None => None,
            },
            last_update_check: self.last_update_check,
        }
    }
}

/// The status report: one row per configured edition.
pub struct GeoIpStatus {
    pub databases: Vec<GeoIpDatabaseStatus>,
}

/// What a slot reports: the loaded reader's build instant (as epoch
/// seconds), locales, sizes and backing version's last check, or nothing of
/// each when no reader is loaded; and the error slot as it stands.
pub open spec fn spec_status_of(s: SlotView) -> StatusView {
    match s.reader {
        Some(h) => StatusView {
            edition: s.edition,
            timestamp: Some(h.build_epoch),
            locales: h.languages,
            file_size: Some(h.file_size),
            archive_file_size: h.archive_file_size,
            error: s.error,
            last_update_check: Some(h.info.utime),
        },
        None => StatusView {
            edition: s.edition,
            timestamp: None,
            locales: Seq::empty(),
            file_size: None,
            archive_file_size: None,
            error: s.error,
            last_update_check: None,
        },
    }
}

impl MaxMindService {
    /// One edition's status row.
    fn status_row(slot: &ReaderSlot) -> (r: GeoIpDatabaseStatus)
        ensures
            r@ == spec_status_of(slot@),
    {
        let edition = vstd::slice::slice_to_vec(slot.edition.as_slice());
        let error = match &slot.error {
            Some(m) => Some(vstd::slice::slice_to_vec(m.as_slice())),
            None => None,
        };
        match &slot.reader {
            Some(h) => {
                let r = GeoIpDatabaseStatus {
                    edition,
                    timestamp: Some(h.build_epoch),
                    locales: clone_strings(&h.languages),
                    file_size: Some(h.file_size),
                    archive_file_size: h.archive_file_size,
                    error,
                    last_update_check: Some(h.info.utime),
                };
                r
            },
            None => {
                let locales: Vec<String> = Vec::new();
                assert(strings_view(locales@) =~= Seq::<Seq<char>>::empty());
                GeoIpDatabaseStatus {
                    edition,
                    timestamp: None,
                    locales,
                    file_size: None,
                    archive_file_size: None,
                    error,
                    last_update_check: None,
                }
            },
        }
    }

    /// The status of every configured edition, in configured order.
    pub fn status(&self) -> (r: GeoIpStatus)
        ensures
            r.databases@.len() == self.slots@.len(),
            forall|i: int|
                0 <= i < self.slots@.len() ==> (#[trigger] r.databases@[i])@ == spec_status_of(
                    self.slots@[i]@,
                ),
    {
        let mut rows: Vec<GeoIpDatabaseStatus> = Vec::new();
        let mut i: usize = 0;
        while i < self.slots.len()
            invariant
                i <= self.slots@.len(),
                rows@.len() == i,
                forall|j: int|
                    0 <= j < i ==> (#[trigger] rows@[j])@ == spec_status_of(self.slots@[j]@),
            decreases self.slots@.len() - i,
        {
            rows.push(Self::status_row(&self.slots[i]));
            i += 1;
        }
        GeoIpStatus { databases: rows }
    }
}

} // verus!
