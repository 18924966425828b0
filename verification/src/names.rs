//! The on-disk naming convention.
//!
//! A cached archive is `<tag>-<YYYYMMDDHHMMSS>.tar.gz`, where the tag matches
//! `[A-Za-z0-9-]+` and the stamp spells the version's `mtime`.  Beside it live
//! the extracted `<tag>-<stamp>.mmdb` and the side file `<tag>.timestamp`.
//! This module defines the grammar of those names as spec functions, their
//! executable readers and writers, and the round-trip law that ties them
//! together.

use vstd::prelude::*;
use crate::time::{stamp, parse_stamp, UtcTime};

verus! {

/// Bytes a tag may contain: `[A-Za-z0-9-]`.
pub open spec fn is_tag_byte(c: u8) -> bool {
    (65 <= c <= 90) || (97 <= c <= 122) || (48 <= c <= 57) || c == 45
}

/// A tag is one or more tag bytes.
pub open spec fn valid_tag(s: Seq<u8>) -> bool {
    s.len() > 0 && forall|i: int| 0 <= i < s.len() ==> is_tag_byte(#[trigger] s[i])
}

/// `.tar.gz`
pub open spec fn tar_gz_suffix() -> Seq<u8> {
    seq![46, 116, 97, 114, 46, 103, 122]
}

/// `.mmdb`
pub open spec fn mmdb_suffix() -> Seq<u8> {
    seq![46, 109, 109, 100, 98]
}

/// `.timestamp`
pub open spec fn timestamp_suffix() -> Seq<u8> {
    seq![46, 116, 105, 109, 101, 115, 116, 97, 109, 112]
}

/// `.zoneinfo`
pub open spec fn zoneinfo_suffix() -> Seq<u8> {
    seq![46, 122, 111, 110, 101, 105, 110, 102, 111]
}

/// `{edition}`
pub open spec fn edition_placeholder() -> Seq<u8> {
    seq![123, 101, 100, 105, 116, 105, 111, 110, 125]
}

/// The canonical archive file name of a version: `<tag>-<stamp>.tar.gz`.
pub open spec fn archive_name_of(tag: Seq<u8>, t: UtcTime) -> Seq<u8> {
    tag + seq![45] + stamp(t) + tar_gz_suffix()
}

/// Meaning of a file name: the tagged version it spells, if any.  The stamp
/// occupies the fourteen bytes just before the `.tar.gz` suffix, so a name
/// decomposes in at most one way.
pub open spec fn spec_parse_archive_name(s: Seq<u8>) -> Option<(Seq<u8>, UtcTime)> {
    let n = s.len() as int;
    if n >= 23 && s.subrange(n - 7, n) == tar_gz_suffix() && s[n - 22] == 45 && valid_tag(
        s.subrange(0, n - 22),
    ) {
        match parse_stamp(s.subrange(n - 21, n - 7)) {
            Some(t) => Some((s.subrange(0, n - 22), t)),
            None => None,
        }
    } else {
        None
    }
}

/// Appends all of `s` to `out`.
pub fn push_bytes(out: &mut Vec<u8>, s: &[u8])
    ensures
        final(out)@ == old(out)@ + s@,
{
    let mut i: usize = 0;
    while i < s.len()
        invariant
            i <= s@.len(),
            out@ == old(out)@ + s@.subrange(0, i as int),
        decreases s@.len() - i,
    {
        out.push(s[i]);
        assert(out@ =~= old(out)@ + s@.subrange(0, i + 1));
        i += 1;
    }
    assert(out@ =~= old(out)@ + s@);
}

/// Byte-string equality.
pub fn bytes_eq(a: &[u8], b: &[u8]) -> (r: bool)
    ensures
        r == (a@ == b@),
{
    if a.len() != b.len() {
        return false;
    }
    let mut i: usize = 0;
    while i < a.len()
        invariant
            i <= a@.len(),
            a@.len() == b@.len(),
            forall|j: int| 0 <= j < i ==> a@[j] == b@[j],
        decreases a@.len() - i,
    {
        if a[i] != b[i] {
            return false;
        }
        i += 1;
    }
    assert(a@ =~= b@);
    true
}

/// Whether `name` begins with `prefix`.
pub open spec fn spec_has_prefix(name: Seq<u8>, prefix: Seq<u8>) -> bool {
    name.len() >= prefix.len() && name.subrange(0, prefix.len() as int) == prefix
}

/// Executable mirror of [`spec_has_prefix`].
pub fn has_prefix(name: &[u8], prefix: &[u8]) -> (r: bool)
    ensures
        r == spec_has_prefix(name@, prefix@),
{
    if name.len() < prefix.len() {
        return false;
    }
    let head: &[u8] = vstd::slice::slice_subrange(name, 0, prefix.len());
    bytes_eq(head, prefix)
}

/// The `.tar.gz` suffix as a vector.
pub fn tar_gz_suffix_vec() -> (r: Vec<u8>)
    ensures
        r@ == tar_gz_suffix(),
{
    let mut v: Vec<u8> = Vec::new();
    v.push(46);
    v.push(116);
    v.push(97);
    v.push(114);
    v.push(46);
    v.push(103);
    v.push(122);
    assert(v@ =~= tar_gz_suffix());
    v
}

/// Whether `name` ends in `.tar.gz`.
pub fn has_tar_gz_suffix(name: &[u8]) -> (r: bool)
    ensures
        r == (name@.len() >= 7 && name@.subrange(name@.len() - 7, name@.len() as int)
            == tar_gz_suffix()),
{
    if name.len() < 7 {
        return false;
    }
    let tail: &[u8] = vstd::slice::slice_subrange(name, name.len() - 7, name.len());
    let suffix: Vec<u8> = tar_gz_suffix_vec();
    bytes_eq(tail, suffix.as_slice())
}

/// Writes the canonical archive file name of a version.
pub fn format_archive_name(tag: &[u8], t: &UtcTime) -> (r: Vec<u8>)
    requires
        t.valid(),
    ensures
        r@ == archive_name_of(tag@, *t),
{
    let mut out: Vec<u8> = Vec::new();
    push_bytes(&mut out, tag);
    out.push(45);
    let st: Vec<u8> = t.format_stamp();
    push_bytes(&mut out, st.as_slice());
    let suffix: Vec<u8> = tar_gz_suffix_vec();
    push_bytes(&mut out, suffix.as_slice());
    assert(out@ =~= archive_name_of(tag@, *t));
    out
}

/// Reads a file name against the archive naming convention.
pub fn parse_archive_name(name: &[u8]) -> (r: Option<(Vec<u8>, UtcTime)>)
    ensures
        match r {
            Some((tag, t)) => spec_parse_archive_name(name@) == Some((tag@, t)),
            None => spec_parse_archive_name(name@) is None,
        },
{
    let n: usize = name.len();
    if n < 23 {
        return None;
    }
    if !has_tar_gz_suffix(name) {
        return None;
    }
    if name[n - 22] != 45 {
        return None;
    }
    let tag_part: &[u8] = vstd::slice::slice_subrange(name, 0, n - 22);
    let mut i: usize = 0;
    while i < tag_part.len()
        invariant
            i <= tag_part@.len(),
            n == name@.len(),
            23 <= n,
            tag_part@ == name@.subrange(0, n as int - 22),
            forall|j: int| 0 <= j < i ==> is_tag_byte(#[trigger] tag_part@[j]),
        decreases tag_part@.len() - i,
    {
        let c: u8 = tag_part[i];
        if !((65 <= c && c <= 90) || (97 <= c && c <= 122) || (48 <= c && c <= 57) || c == 45) {
            assert(name@.subrange(0, n as int - 22)[i as int] == tag_part@[i as int]);
            assert(!is_tag_byte(tag_part@[i as int]));
            assert(!valid_tag(name@.subrange(0, n as int - 22)));
            return None;
        }
        i += 1;
    }
    assert(valid_tag(name@.subrange(0, n as int - 22)));
    let stamp_part: &[u8] = vstd::slice::slice_subrange(name, n - 21, n - 7);
    match UtcTime::parse_stamp_bytes(stamp_part) {
        Some(t) => Some((vstd::slice::slice_to_vec(tag_part), t)),
        None => None,
    }
}

/// The canonical name embeds the stamp of the version's `mtime`, just after
/// the `-` that closes the tag.
pub proof fn lemma_canonical_name_stamp(tag: Seq<u8>, t: UtcTime)
    requires
        t.valid(),
    ensures
        archive_name_of(tag, t).subrange(tag.len() as int + 1, tag.len() as int + 15) == stamp(t),
        archive_name_of(tag, t).len() == tag.len() + 22,
{
    crate::time::lemma_stamp_digits(t);
    assert(archive_name_of(tag, t).subrange(tag.len() as int + 1, tag.len() as int + 15) =~= stamp(t));
}

/// Round trip: the canonical name of a valid tagged version reads back as
/// exactly that tag and that instant.
pub proof fn lemma_archive_name_round_trip(tag: Seq<u8>, t: UtcTime)
    requires
        valid_tag(tag),
        t.valid(),
    ensures
        spec_parse_archive_name(archive_name_of(tag, t)) == Some((tag, t)),
{
    let s = archive_name_of(tag, t);
    crate::time::lemma_stamp_digits(t);
    let n = s.len() as int;
    assert(n == tag.len() + 22);
    assert(s.subrange(n - 7, n) =~= tar_gz_suffix());
    assert(s[n - 22] == 45);
    assert(s.subrange(0, n - 22) =~= tag);
    assert(s.subrange(n - 21, n - 7) =~= stamp(t));
    crate::time::lemma_stamp_round_trip(t);
}

/// Two distinct valid `(tag, mtime)` pairs never share a canonical name.
pub proof fn lemma_archive_name_injective(tag1: Seq<u8>, t1: UtcTime, tag2: Seq<u8>, t2: UtcTime)
    requires
        valid_tag(tag1),
        t1.valid(),
        valid_tag(tag2),
        t2.valid(),
        archive_name_of(tag1, t1) == archive_name_of(tag2, t2),
    ensures
        tag1 == tag2,
        t1 == t2,
{
    lemma_archive_name_round_trip(tag1, t1);
    lemma_archive_name_round_trip(tag2, t2);
}

/// Drops the final `.tar.gz` from a name.
pub fn strip_tar_gz(name: &[u8]) -> (r: Vec<u8>)
    requires
        name@.len() >= 7,
    ensures
        r@ == name@.take(name@.len() - 7),
{
    let head: &[u8] = vstd::slice::slice_subrange(name, 0, name.len() - 7);
    let v: Vec<u8> = vstd::slice::slice_to_vec(head);
    assert(v@ =~= name@.take(name@.len() - 7));
    v
}

/// The expected extracted database beside an archive: the `.tar.gz` suffix
/// replaced by `.mmdb`.
pub fn mmdb_file_name(archive_name: &[u8]) -> (r: Vec<u8>)
    requires
        archive_name@.len() >= 7,
    ensures
        r@ == archive_name@.take(archive_name@.len() - 7) + mmdb_suffix(),
{
    let mut out: Vec<u8> = strip_tar_gz(archive_name);
    out.push(46);
    out.push(109);
    out.push(109);
    out.push(100);
    out.push(98);
    assert(out@ =~= archive_name@.take(archive_name@.len() - 7) + mmdb_suffix());
    out
}

/// The side file holding the last-checked instant of a tag: `<tag>.timestamp`.
pub fn timestamp_file_name(tag: &[u8]) -> (r: Vec<u8>)
    ensures
        r@ == tag@ + timestamp_suffix(),
{
    let mut out: Vec<u8> = vstd::slice::slice_to_vec(tag);
    out.push(46);
    out.push(116);
    out.push(105);
    out.push(109);
    out.push(101);
    out.push(115);
    out.push(116);
    out.push(97);
    out.push(109);
    out.push(112);
    assert(out@ =~= tag@ + timestamp_suffix());
    out
}

/// The name prefix shared by a version's artifacts: `<tag>-<stamp>`.
pub fn cleanup_prefix(tag: &[u8], t: &UtcTime) -> (r: Vec<u8>)
    requires
        t.valid(),
    ensures
        r@ == tag@ + seq![45] + stamp(*t),
{
    let mut out: Vec<u8> = vstd::slice::slice_to_vec(tag);
    out.push(45);
    let st: Vec<u8> = t.format_stamp();
    push_bytes(&mut out, st.as_slice());
    assert(out@ =~= tag@ + seq![45] + stamp(*t));
    out
}

/// Whether a directory entry is a sibling artifact of a version under
/// cleanup: it bears the version's name prefix and is not the archive itself
/// (which is removed separately).
pub fn should_remove_sibling(entry_name: &[u8], prefix: &[u8], archive_name: &[u8]) -> (r: bool)
    ensures
        r == (entry_name@ != archive_name@ && spec_has_prefix(entry_name@, prefix@)),
{
    if bytes_eq(entry_name, archive_name) {
        return false;
    }
    has_prefix(entry_name, prefix)
}

/// A download URL with every `{edition}` placeholder replaced by the tag,
/// scanning left to right.
pub open spec fn spec_substitute_edition(url: Seq<u8>, tag: Seq<u8>) -> Seq<u8>
    decreases url.len(),
{
    if url.len() == 0 {
        Seq::empty()
    } else if url.len() >= 9 && url.subrange(0, 9) == edition_placeholder() {
        tag + spec_substitute_edition(url.skip(9), tag)
    } else {
        seq![url[0]] + spec_substitute_edition(url.skip(1), tag)
    }
}

/// The `{edition}` placeholder as a vector.
fn edition_placeholder_vec() -> (r: Vec<u8>)
    ensures
        r@ == edition_placeholder(),
{
    let mut v: Vec<u8> = Vec::new();
    v.push(123);
    v.push(101);
    v.push(100);
    v.push(105);
    v.push(116);
    v.push(105);
    v.push(111);
    v.push(110);
    v.push(125);
    assert(v@ =~= edition_placeholder());
    v
}

/// Substitutes the tag for each `{edition}` placeholder in a URL template.
pub fn substitute_edition(url: &[u8], tag: &[u8]) -> (r: Vec<u8>)
    ensures
        r@ == spec_substitute_edition(url@, tag@),
{
    let placeholder: Vec<u8> = edition_placeholder_vec();
    let mut out: Vec<u8> = Vec::new();
    let mut i: usize = 0;
    assert(url@.skip(0) =~= url@);
    assert(Seq::<u8>::empty() + spec_substitute_edition(url@, tag@) =~= spec_substitute_edition(
        url@,
        tag@,
    ));
    while i < url.len()
        invariant
            i <= url@.len(),
            placeholder@ == edition_placeholder(),
            spec_substitute_edition(url@, tag@) == out@ + spec_substitute_edition(
                url@.skip(i as int),
                tag@,
            ),
        decreases url@.len() - i,
    {
        let ghost rest = url@.skip(i as int);
        if url.len() - i >= 9 {
            let window: &[u8] = vstd::slice::slice_subrange(url, i, i + 9);
            if bytes_eq(window, placeholder.as_slice()) {
                assert(rest.subrange(0, 9) =~= window@);
                push_bytes(&mut out, tag);
                assert(rest.skip(9) =~= url@.skip(i + 9));
                i += 9;
                continue;
            }
            assert(rest.subrange(0, 9) =~= window@);
        } else {
            assert(rest.len() < 9);
        }
        out.push(url[i]);
        assert(rest.skip(1) =~= url@.skip(i + 1));
        assert(seq![url@[i as int]] =~= seq![rest[0]]);
        i += 1;
    }
    assert(url@.skip(url@.len() as int) =~= Seq::<u8>::empty());
    out
}

/// Whether a byte string is a tag, executable mirror of [`valid_tag`].
pub fn is_valid_tag(s: &[u8]) -> (r: bool)
    ensures
        r == valid_tag(s@),
{
    if s.len() == 0 {
        return false;
    }
    let mut i: usize = 0;
    while i < s.len()
        invariant
            i <= s@.len(),
            forall|j: int| 0 <= j < i ==> is_tag_byte(#[trigger] s@[j]),
        decreases s@.len() - i,
    {
        let c: u8 = s[i];
        if !((65 <= c && c <= 90) || (97 <= c && c <= 122) || (48 <= c && c <= 57) || c == 45) {
            assert(!is_tag_byte(s@[i as int]));
            return false;
        }
        i += 1;
    }
    true
}

/// Whether an archive member's path names an extracted database: its
/// extension is `mmdb`.
pub fn is_mmdb_member_name(path: &[u8]) -> (r: bool)
    ensures
        r == (path@.len() > 5 && path@.subrange(path@.len() - 5, path@.len() as int)
            == mmdb_suffix()),
{
    if path.len() <= 5 {
        return false;
    }
    let tail: &[u8] = vstd::slice::slice_subrange(path, path.len() - 5, path.len());
    let mut suffix: Vec<u8> = Vec::new();
    suffix.push(46);
    suffix.push(109);
    suffix.push(109);
    suffix.push(100);
    suffix.push(98);
    assert(suffix@ =~= mmdb_suffix());
    bytes_eq(tail, suffix.as_slice())
}

/// Decimal digits of a nonnegative number, most significant first.
pub open spec fn dec_digits(n: int) -> Seq<u8>
    recommends
        n >= 0,
    decreases n,
{
    if n < 10 {
        seq![crate::time::dec_digit(n)]
    } else {
        dec_digits(n / 10).push(crate::time::dec_digit(n % 10))
    }
}

/// Writes a number in decimal, executable mirror of [`dec_digits`].
pub fn format_u64(n: u64) -> (r: Vec<u8>)
    ensures
        r@ == dec_digits(n as int),
    decreases n,
{
    if n < 10 {
        let mut v: Vec<u8> = Vec::new();
        v.push(48 + n as u8);
        assert(v@ =~= dec_digits(n as int));
        v
    } else {
        let mut v: Vec<u8> = format_u64(n / 10);
        v.push(48 + (n % 10) as u8);
        v
    }
}

} // verus!

