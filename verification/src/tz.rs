//! The timezone table and its builder rules.
//!
//! A POSIX TZ string is the final non-empty line of a compiled TZif file:
//! the file starts with the magic `TZif`, ends with a newline, and the text
//! after the last remaining newline names the zone's rule, e.g.
//! `CET-1CEST,M3.5.0,M10.5.0/3`.  The table maps zone identifiers (paths
//! such as `Europe/Paris`) to those strings.  The I/O shell walks zoneinfo
//! trees and feeds each file's name and bytes to [`TzTable::load_from_slice`];
//! building the tree — unpacking the tzdb sources and running the zoneinfo
//! compiler — is also the shell's part, with the compiler's arguments built
//! here.

use vstd::prelude::*;
use vstd::utf8::valid_utf8;

verus! {

/// `TZif`, the magic of a compiled zoneinfo file.
pub open spec fn tzif_magic() -> Seq<u8> {
    seq![84u8, 90, 105, 102]
}

/// ASCII whitespace.
pub open spec fn is_ascii_space(c: u8) -> bool {
    c == 32 || (9 <= c <= 13)
}

/// Drops leading ASCII whitespace.
pub open spec fn trim_front(s: Seq<u8>) -> Seq<u8>
    decreases s.len(),
{
    if s.len() > 0 && is_ascii_space(s[0]) {
        trim_front(s.drop_first())
    } else {
        s
    }
}

/// Drops trailing ASCII whitespace.
pub open spec fn trim_back(s: Seq<u8>) -> Seq<u8>
    decreases s.len(),
{
    if s.len() > 0 && is_ascii_space(s[s.len() - 1]) {
        trim_back(s.drop_last())
    } else {
        s
    }
}

/// Drops surrounding ASCII whitespace.
pub open spec fn trim_spaces(s: Seq<u8>) -> Seq<u8> {
    trim_back(trim_front(s))
}

/// If the first `a` bytes are whitespace and the next one is not,
/// `trim_front` drops exactly those `a` bytes.
proof fn lemma_trim_front_at(s: Seq<u8>, a: int)
    requires
        0 <= a <= s.len(),
        forall|j: int| 0 <= j < a ==> is_ascii_space(#[trigger] s[j]),
        a < s.len() ==> !is_ascii_space(s[a]),
    ensures
        trim_front(s) == s.skip(a),
    decreases a,
{
    if a == 0 {
        assert(s.skip(0) =~= s);
    } else {
        assert(is_ascii_space(s[0]));
        assert(s.drop_first() =~= s.skip(1));
        lemma_trim_front_at(s.skip(1), a - 1);
        assert(s.skip(1).skip(a - 1) =~= s.skip(a));
    }
}

/// If the bytes from `b` on are whitespace and the one before is not,
/// `trim_back` keeps exactly the first `b` bytes.
proof fn lemma_trim_back_at(s: Seq<u8>, b: int)
    requires
        0 <= b <= s.len(),
        forall|j: int| b <= j < s.len() ==> is_ascii_space(#[trigger] s[j]),
        b > 0 ==> !is_ascii_space(s[b - 1]),
    ensures
        trim_back(s) == s.take(b),
    decreases s.len(),
{
    if b == s.len() {
        if s.len() > 0 && is_ascii_space(s[s.len() - 1]) {
        } else {
            assert(s.take(b) =~= s);
        }
    } else {
        assert(is_ascii_space(s[s.len() - 1]));
        assert(s.drop_last() =~= s.take(s.len() - 1));
        lemma_trim_back_at(s.take(s.len() - 1), b);
        assert(s.take(s.len() - 1).take(b) =~= s.take(b));
    }
}

/// Executable mirror of [`is_ascii_space`].
pub fn is_space_byte(c: u8) -> (r: bool)
    ensures
        r == is_ascii_space(c),
{
    c == 32 || (9 <= c && c <= 13)
}

/// Trims surrounding ASCII whitespace, executable mirror of
/// [`trim_spaces`].
pub fn trim_ascii(s: &[u8]) -> (r: Vec<u8>)
    ensures
        r@ == trim_spaces(s@),
{
    let n: usize = s.len();
    let mut a: usize = 0;
    while a < n && is_space_byte(s[a])
        invariant
            a <= n,
            n == s@.len(),
            forall|j: int| 0 <= j < a ==> is_ascii_space(#[trigger] s@[j]),
        decreases n - a,
    {
        a += 1;
    }
    proof {
        lemma_trim_front_at(s@, a as int);
    }
    if a == n {
        proof {
            assert(trim_back(Seq::<u8>::empty()) =~= Seq::<u8>::empty());
            assert(s@.skip(n as int) =~= Seq::<u8>::empty());
        }
        return Vec::new();
    }
    let mut b: usize = n;
    while b > a && is_space_byte(s[b - 1])
        invariant
            a <= b <= n,
            n == s@.len(),
            forall|j: int| b <= j < n ==> is_ascii_space(#[trigger] s@[j]),
        decreases b,
    {
        b -= 1;
    }
    proof {
        let front = s@.skip(a as int);
        assert forall|j: int| b - a <= j < front.len() implies is_ascii_space(
            #[trigger] front[j],
        ) by {
            assert(front[j] == s@[j + a]);
        }
        if b > a {
            assert(front[b - a - 1] == s@[b as int - 1]);
        }
        lemma_trim_back_at(front, b - a);
        assert(front.take(b - a) =~= s@.subrange(a as int, b as int));
    }
    let part: &[u8] = vstd::slice::slice_subrange(s, a, b);
    vstd::slice::slice_to_vec(part)
}

/// The index of the last newline, if any.
pub open spec fn last_newline(s: Seq<u8>) -> Option<int>
    decreases s.len(),
{
    if s.len() == 0 {
        None
    } else if s[s.len() - 1] == 10 {
        Some(s.len() - 1)
    } else {
        last_newline(s.drop_last())
    }
}

/// If position `i` holds the last newline, the find yields it.
proof fn lemma_last_newline_at(s: Seq<u8>, i: int)
    requires
        0 <= i < s.len(),
        s[i] == 10,
        forall|j: int| i < j < s.len() ==> s[j] != 10,
    ensures
        last_newline(s) == Some(i),
    decreases s.len(),
{
    if i < s.len() - 1 {
        assert(s[s.len() - 1] != 10);
        assert(s.drop_last() =~= s.take(s.len() - 1));
        lemma_last_newline_at(s.take(s.len() - 1), i);
    }
}

/// Without any newline the find yields nothing.
proof fn lemma_last_newline_none(s: Seq<u8>)
    requires
        forall|j: int| 0 <= j < s.len() ==> s[j] != 10,
    ensures
        last_newline(s) is None,
    decreases s.len(),
{
    if s.len() > 0 {
        assert(s.drop_last() =~= s.take(s.len() - 1));
        lemma_last_newline_none(s.take(s.len() - 1));
    }
}

/// Relies on std's `str::from_utf8`: it succeeds exactly on valid UTF-8, as
/// `vstd::utf8::valid_utf8` defines it.
#[verifier::external_body]
pub(crate) fn utf8_check(bytes: &[u8]) -> (r: bool)
    ensures
        r == valid_utf8(bytes@),
{
    std::str::from_utf8(bytes).is_ok()
}

/// The POSIX TZ string a compiled zoneinfo file contributes: the file must
/// start with the `TZif` magic and end with a newline; the text after the
/// last remaining newline, if it is UTF-8 and non-empty once trimmed, is the
/// zone's rule string.
pub open spec fn spec_tz_string(bytes: Seq<u8>) -> Option<Seq<u8>> {
    if bytes.len() < 4 || bytes.subrange(0, 4) != tzif_magic() {
        None
    } else if bytes[bytes.len() - 1] != 10 {
        None
    } else {
        let body = bytes.take(bytes.len() - 1);
        match last_newline(body) {
            None => None,
            Some(i) => {
                let tail = body.skip(i + 1);
                if valid_utf8(tail) {
                    let trimmed = trim_spaces(tail);
                    if trimmed.len() > 0 {
                        Some(trimmed)
                    } else {
                        None
                    }
                } else {
                    None
                }
            },
        }
    }
}

/// Reads a compiled zoneinfo file, executable mirror of
/// [`spec_tz_string`].
pub fn tz_string(bytes: &[u8]) -> (r: Option<Vec<u8>>)
    ensures
        match r {
            Some(v) => spec_tz_string(bytes@) == Some(v@),
            None => spec_tz_string(bytes@) is None,
        },
{
    let n: usize = bytes.len();
    if n < 4 {
        return None;
    }
    let head: &[u8] = vstd::slice::slice_subrange(bytes, 0, 4);
    let mut magic: Vec<u8> = Vec::new();
    magic.push(84);
    magic.push(90);
    magic.push(105);
    magic.push(102);
    assert(magic@ =~= tzif_magic());
    if !crate::names::bytes_eq(head, magic.as_slice()) {
        return None;
    }
    if bytes[n - 1] != 10 {
        return None;
    }
    let ghost body = bytes@.take(n as int - 1);
    let mut j: usize = n - 1;
    while j > 0 && bytes[j - 1] != 10
        invariant
            j <= n - 1,
            n == bytes@.len(),
            n >= 1,
            forall|k: int| j <= k < n - 1 ==> bytes@[k] != 10,
        decreases j,
    {
        j -= 1;
    }
    proof {
        assert forall|k: int| j <= k < body.len() implies body[k] != 10 by {
            assert(body[k] == bytes@[k]);
        }
        if j == 0 {
            lemma_last_newline_none(body);
        } else {
            assert(body[j - 1] == bytes@[j - 1]);
            lemma_last_newline_at(body, j as int - 1);
        }
    }
    if j == 0 {
        return None;
    }
    let tail: &[u8] = vstd::slice::slice_subrange(bytes, j, n - 1);
    assert(tail@ =~= body.skip(j as int));
    if !utf8_check(tail) {
        return None;
    }
    let trimmed = trim_ascii(tail);
    if trimmed.len() == 0 {
        return None;
    }
    Some(trimmed)
}

/// The zoneinfo compiler's argument list: `-d <abs_out> -L leapseconds`
/// followed by the nine tzdb source files
/// (africa antarctica asia australasia etcetera europe northamerica
/// southamerica backward).
pub open spec fn spec_zic_args(abs_out: Seq<u8>) -> Seq<Seq<u8>> {
    seq![
        seq![45u8, 100],
        abs_out,
        seq![45u8, 76],
        seq![108u8, 101, 97, 112, 115, 101, 99, 111, 110, 100, 115],
        seq![97u8, 102, 114, 105, 99, 97],
        seq![97u8, 110, 116, 97, 114, 99, 116, 105, 99, 97],
        seq![97u8, 115, 105, 97],
        seq![97u8, 117, 115, 116, 114, 97, 108, 97, 115, 105, 97],
        seq![101u8, 116, 99, 101, 116, 101, 114, 97],
        seq![101u8, 117, 114, 111, 112, 101],
        seq![110u8, 111, 114, 116, 104, 97, 109, 101, 114, 105, 99, 97],
        seq![115u8, 111, 117, 116, 104, 97, 109, 101, 114, 105, 99, 97],
        seq![98u8, 97, 99, 107, 119, 97, 114, 100],
    ]
}

/// Builds the zoneinfo compiler's arguments, executable mirror of
/// [`spec_zic_args`].
pub fn zic_args(abs_out: &[u8]) -> (r: Vec<Vec<u8>>)
    ensures
        r@.len() == spec_zic_args(abs_out@).len(),
        forall|i: int| 0 <= i < r@.len() ==> (#[trigger] r@[i])@ == spec_zic_args(abs_out@)[i],
{
    let mut r: Vec<Vec<u8>> = Vec::new();
    let mut a0: Vec<u8> = Vec::new();
    a0.push(45);
    a0.push(100);
    r.push(a0);
    r.push(vstd::slice::slice_to_vec(abs_out));
    let mut a2: Vec<u8> = Vec::new();
    a2.push(45);
    a2.push(76);
    r.push(a2);
    let mut a3: Vec<u8> = Vec::new();
    a3.push(108);
    a3.push(101);
    a3.push(97);
    a3.push(112);
    a3.push(115);
    a3.push(101);
    a3.push(99);
    a3.push(111);
    a3.push(110);
    a3.push(100);
    a3.push(115);
    r.push(a3);
    let mut b0: Vec<u8> = Vec::new();
    b0.push(97);
    b0.push(102);
    b0.push(114);
    b0.push(105);
    b0.push(99);
    b0.push(97);
    r.push(b0);
    let mut b1: Vec<u8> = Vec::new();
    b1.push(97);
    b1.push(110);
    b1.push(116);
    b1.push(97);
    b1.push(114);
    b1.push(99);
    b1.push(116);
    b1.push(105);
    b1.push(99);
    b1.push(97);
    r.push(b1);
    let mut b2: Vec<u8> = Vec::new();
    b2.push(97);
    b2.push(115);
    b2.push(105);
    b2.push(97);
    r.push(b2);
    let mut b3: Vec<u8> = Vec::new();
    b3.push(97);
    b3.push(117);
    b3.push(115);
    b3.push(116);
    b3.push(114);
    b3.push(97);
    b3.push(108);
    b3.push(97);
    b3.push(115);
    b3.push(105);
    b3.push(97);
    r.push(b3);
    let mut b4: Vec<u8> = Vec::new();
    b4.push(101);
    b4.push(116);
    b4.push(99);
    b4.push(101);
    b4.push(116);
    b4.push(101);
    b4.push(114);
    b4.push(97);
    r.push(b4);
    let mut b5: Vec<u8> = Vec::new();
    b5.push(101);
    b5.push(117);
    b5.push(114);
    b5.push(111);
    b5.push(112);
    b5.push(101);
    r.push(b5);
    let mut b6: Vec<u8> = Vec::new();
    b6.push(110);
    b6.push(111);
    b6.push(114);
    b6.push(116);
    b6.push(104);
    b6.push(97);
    b6.push(109);
    b6.push(101);
    b6.push(114);
    b6.push(105);
    b6.push(99);
    b6.push(97);
    r.push(b6);
    let mut b7: Vec<u8> = Vec::new();
    b7.push(115);
    b7.push(111);
    b7.push(117);
    b7.push(116);
    b7.push(104);
    b7.push(97);
    b7.push(109);
    b7.push(101);
    b7.push(114);
    b7.push(105);
    b7.push(99);
    b7.push(97);
    r.push(b7);
    let mut b8: Vec<u8> = Vec::new();
    b8.push(98);
    b8.push(97);
    b8.push(99);
    b8.push(107);
    b8.push(119);
    b8.push(97);
    b8.push(114);
    b8.push(100);
    r.push(b8);
    proof {
        assert forall|i: int| 0 <= i < r@.len() implies (#[trigger] r@[i])@ == spec_zic_args(
            abs_out@,
        )[i] by {
            assert(r@[i]@ =~= spec_zic_args(abs_out@)[i]);
        }
    }
    r
}

/// `tzdata`, the tag of the timezone database archive.
pub open spec fn tzdata_tag() -> Seq<u8> {
    seq![116u8, 122, 100, 97, 116, 97]
}

/// Executable mirror of [`tzdata_tag`].
pub fn tzdata_tag_vec() -> (r: Vec<u8>)
    ensures
        r@ == tzdata_tag(),
{
    let mut v: Vec<u8> = Vec::new();
    v.push(116);
    v.push(122);
    v.push(100);
    v.push(97);
    v.push(116);
    v.push(97);
    assert(v@ =~= tzdata_tag());
    v
}

/// One zone's entry: the zone identifier and its POSIX TZ string.
pub struct TzEntry {
    pub zone: Vec<u8>,
    pub tz: Vec<u8>,
}

/// The mathematical content of a [`TzEntry`].
pub struct TzEntryView {
    pub zone: Seq<u8>,
    pub tz: Seq<u8>,
}

impl View for TzEntry {
    type V = TzEntryView;

    open spec fn view(&self) -> TzEntryView {
        TzEntryView { zone: self.zone@, tz: self.tz@ }
    }
}

/// The first entry of `zone`, scanning left to right.
pub open spec fn tz_find(s: Seq<TzEntry>, zone: Seq<u8>) -> Option<Seq<u8>>
    decreases s.len(),
{
    if s.len() == 0 {
        None
    } else if s[0]@.zone == zone {
        Some(s[0]@.tz)
    } else {
        tz_find(s.drop_first(), zone)
    }
}

proof fn lemma_tz_find_first(s: Seq<TzEntry>, zone: Seq<u8>, i: int)
    requires
        0 <= i < s.len(),
        s[i]@.zone == zone,
        forall|j: int| 0 <= j < i ==> (#[trigger] s[j])@.zone != zone,
    ensures
        tz_find(s, zone) == Some(s[i]@.tz),
    decreases i,
{
    if i > 0 {
        lemma_tz_find_first(s.drop_first(), zone, i - 1);
    }
}

proof fn lemma_tz_find_absent(s: Seq<TzEntry>, zone: Seq<u8>)
    requires
        forall|j: int| 0 <= j < s.len() ==> (#[trigger] s[j])@.zone != zone,
    ensures
        tz_find(s, zone) is None,
    decreases s.len(),
{
    if s.len() > 0 {
        lemma_tz_find_absent(s.drop_first(), zone);
    }
}

proof fn lemma_tz_find_update_other(s: Seq<TzEntry>, i: int, v: TzEntry, zone: Seq<u8>)
    requires
        0 <= i < s.len(),
        s[i]@.zone != zone,
        v@.zone != zone,
    ensures
        tz_find(s.update(i, v), zone) == tz_find(s, zone),
    decreases i,
{
    let s2 = s.update(i, v);
    if i == 0 {
        assert(s2.drop_first() =~= s.drop_first());
    } else {
        assert(s2[0] == s[0]);
        if s[0]@.zone != zone {
            assert(s2.drop_first() =~= s.drop_first().update(i - 1, v));
            lemma_tz_find_update_other(s.drop_first(), i - 1, v, zone);
        }
    }
}

proof fn lemma_tz_find_push(s: Seq<TzEntry>, v: TzEntry, zone: Seq<u8>)
    ensures
        tz_find(s.push(v), zone) == if tz_find(s, zone) is Some {
            tz_find(s, zone)
        } else if v@.zone == zone {
            Some(v@.tz)
        } else {
            None::<Seq<u8>>
        },
    decreases s.len(),
{
    if s.len() == 0 {
        assert(s.push(v)[0] == v);
        assert(s.push(v).drop_first() =~= Seq::<TzEntry>::empty());
        assert(tz_find(Seq::<TzEntry>::empty(), zone) is None);
        assert(tz_find(s, zone) is None);
    } else {
        assert(s.push(v)[0] == s[0]);
        assert(s.push(v).drop_first() =~= s.drop_first().push(v));
        lemma_tz_find_push(s.drop_first(), v, zone);
    }
}

/// The timezone table: zone identifier to POSIX TZ string.
pub struct TzTable {
    pub entries: Vec<TzEntry>,
}

impl TzTable {
    /// Well-formed: zones pairwise distinct.
    pub open spec fn wf(self) -> bool {
        forall|i: int, j: int|
            0 <= i < j < self.entries@.len() ==> self.entries@[i]@.zone != self.entries@[j]@.zone
    }

    /// The POSIX TZ string of a zone, if known.
    pub open spec fn spec_get(self, zone: Seq<u8>) -> Option<Seq<u8>> {
        tz_find(self.entries@, zone)
    }

    /// An empty table.
    pub fn new() -> (r: TzTable)
        ensures
            r.wf(),
            r.entries@.len() == 0,
            forall|z: Seq<u8>| r.spec_get(z) is None,
    {
        let r = TzTable { entries: Vec::new() };
        assert forall|z: Seq<u8>| r.spec_get(z) is None by {
            lemma_tz_find_absent(r.entries@, z);
        }
        r
    }

    /// Index of the entry carrying `zone`, if present.
    fn find_zone(&self, zone: &[u8]) -> (r: Option<usize>)
        ensures
            match r {
                Some(i) => i < self.entries@.len() && self.entries@[i as int]@.zone == zone@
                    && forall|j: int| 0 <= j < i ==> (#[trigger] self.entries@[j])@.zone != zone@,
                None => forall|j: int|
                    0 <= j < self.entries@.len() ==> (#[trigger] self.entries@[j])@.zone != zone@,
            },
    {
        let mut i: usize = 0;
        while i < self.entries.len()
            invariant
                i <= self.entries@.len(),
                forall|j: int| 0 <= j < i ==> (#[trigger] self.entries@[j])@.zone != zone@,
            decreases self.entries@.len() - i,
        {
            if crate::names::bytes_eq(self.entries[i].zone.as_slice(), zone) {
                return Some(i);
            }
            i += 1;
        }
        None
    }

    /// Records a zone's rule string, overwriting an earlier one.
    pub fn insert(&mut self, zone: &[u8], tz: Vec<u8>)
        requires
            old(self).wf(),
        ensures
            final(self).wf(),
            final(self).spec_get(zone@) == Some(tz@),
            forall|z: Seq<u8>| z != zone@ ==> final(self).spec_get(z) == old(self).spec_get(z),
    {
        let entry = TzEntry { zone: vstd::slice::slice_to_vec(zone), tz };
        let ghost eval = entry;
        let ghost olds = self.entries@;
        match self.find_zone(zone) {
            Some(i) => {
                vstd::pervasive::VecAdditionalExecFns::set(&mut self.entries, i, entry);
                proof {
                    assert(self.entries@ =~= olds.update(i as int, eval));
                    assert forall|a: int, b: int|
                        0 <= a < b < self.entries@.len() implies self.entries@[a]@.zone
                        != self.entries@[b]@.zone by {
                        assert(olds[a]@.zone != olds[b]@.zone);
                    }
                    assert forall|j: int| 0 <= j < i implies (#[trigger] self.entries@[j])@.zone
                        != zone@ by {
                        assert(olds[j]@.zone != olds[i as int]@.zone);
                    }
                    lemma_tz_find_first(self.entries@, zone@, i as int);
                    assert forall|z: Seq<u8>| z != zone@ implies tz_find(self.entries@, z)
                        == tz_find(olds, z) by {
                        lemma_tz_find_update_other(olds, i as int, eval, z);
                    }
                }
            },
            None => {
                proof {
                    lemma_tz_find_absent(olds, zone@);
                }
                self.entries.push(entry);
                proof {
                    assert(self.entries@ == olds.push(eval));
                    assert forall|a: int, b: int|
                        0 <= a < b < self.entries@.len() implies self.entries@[a]@.zone
                        != self.entries@[b]@.zone by {
                        if b < olds.len() {
                            assert(olds[a]@.zone != olds[b]@.zone);
                        } else {
                            assert(olds[a]@.zone != zone@);
                        }
                    }
                    assert forall|z: Seq<u8>| #![auto] true implies tz_find(self.entries@, z) == (
                    if tz_find(olds, z) is Some {
                        tz_find(olds, z)
                    } else if eval@.zone == z {
                        Some(eval@.tz)
                    } else {
                        None::<Seq<u8>>
                    }) by {
                        lemma_tz_find_push(olds, eval, z);
                    }
                }
            },
        }
    }

    /// Feeds one walked file into the table: exactly when its bytes carry a
    /// POSIX TZ string (see [`spec_tz_string`]), the zone named by the file's
    /// path is recorded with that string; any other file changes nothing.
    pub fn load_from_slice(&mut self, name: &[u8], bytes: &[u8])
        requires
            old(self).wf(),
        ensures
            final(self).wf(),
            match spec_tz_string(bytes@) {
                Some(tz) => final(self).spec_get(name@) == Some(tz) && forall|z: Seq<u8>|
                    z != name@ ==> final(self).spec_get(z) == old(self).spec_get(z),
                None => *final(self) == *old(self),
            },
    {
        match tz_string(bytes) {
            Some(tz) => self.insert(name, tz),
            None => {},
        }
    }

    /// The POSIX TZ string recorded for a zone.
    pub fn lookup(&self, zone: &[u8]) -> (r: Option<Vec<u8>>)
        ensures
            match r {
                Some(v) => self.spec_get(zone@) == Some(v@),
                None => self.spec_get(zone@) is None,
            },
    {
        match self.find_zone(zone) {
            Some(i) => {
                proof {
                    lemma_tz_find_first(self.entries@, zone@, i as int);
                }
                Some(vstd::slice::slice_to_vec(self.entries[i].tz.as_slice()))
            },
            None => {
                proof {
                    lemma_tz_find_absent(self.entries@, zone@);
                }
                None
            },
        }
    }

    /// Every entry of the table, for the full listing.
    pub fn get_all(&self) -> (r: &Vec<TzEntry>)
        ensures
            r@ == self.entries@,
    {
        &self.entries
    }
}

/// A child directory's zone prefix: `<prefix><name>/`.
pub fn child_zone_prefix(prefix: &[u8], name: &[u8]) -> (r: Vec<u8>)
    ensures
        r@ == prefix@ + name@ + seq![47u8],
{
    let mut out: Vec<u8> = vstd::slice::slice_to_vec(prefix);
    crate::names::push_bytes(&mut out, name);
    out.push(47);
    assert(out@ =~= prefix@ + name@ + seq![47u8]);
    out
}

/// A file's zone identifier: `<prefix><name>`.
pub fn zone_id(prefix: &[u8], name: &[u8]) -> (r: Vec<u8>)
    ensures
        r@ == prefix@ + name@,
{
    let mut out: Vec<u8> = vstd::slice::slice_to_vec(prefix);
    crate::names::push_bytes(&mut out, name);
    out
}

/// The directory a tzdata archive is unpacked into beside it: the archive
/// name without its `.tar.gz`.
pub fn tzdata_source_dir(archive_name: &[u8]) -> (r: Vec<u8>)
    requires
        archive_name@.len() >= 7,
    ensures
        r@ == archive_name@.take(archive_name@.len() - 7),
{
    crate::names::strip_tar_gz(archive_name)
}

/// The compiled zoneinfo output directory beside the unpacked sources:
/// `<src_dir>.zoneinfo`.
pub fn zoneinfo_dir_name(src_dir: &[u8]) -> (r: Vec<u8>)
    ensures
        r@ == src_dir@ + crate::names::zoneinfo_suffix(),
{
    let mut out: Vec<u8> = vstd::slice::slice_to_vec(src_dir);
    out.push(46);
    out.push(122);
    out.push(111);
    out.push(110);
    out.push(101);
    out.push(105);
    out.push(110);
    out.push(102);
    out.push(111);
    assert(out@ =~= src_dir@ + crate::names::zoneinfo_suffix());
    out
}

} // verus!
