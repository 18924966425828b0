//! Serving a stored archive over HTTP.
//!
//! The download handler streams the tag's current `.tar.gz` back to the
//! caller; this module decides between `304 Not Modified` and a full send,
//! honoring `If-Modified-Since` against the version's `mtime`, and writes
//! the `Content-Disposition` header value.  Opening and streaming the file
//! is the I/O shell's part.

use vstd::prelude::*;
use crate::time::{spec_unix_secs, UtcTime};

verus! {

/// `attachment; filename="<edition>.tar.gz"`.
pub open spec fn spec_content_disposition(edition: Seq<u8>) -> Seq<u8> {
    seq![97u8, 116, 116, 97, 99, 104, 109, 101, 110, 116, 59, 32, 102, 105, 108, 101, 110, 97, 109, 101, 61, 34] + edition + seq![46u8, 116, 97, 114, 46, 103, 122, 34]
}

/// Writes the `Content-Disposition` header value of an edition's download.
pub fn content_disposition_of(edition: &[u8]) -> (r: Vec<u8>)
    ensures
        r@ == spec_content_disposition(edition@),
{
    let mut v: Vec<u8> = Vec::new();
    v.push(97);
    v.push(116);
    v.push(116);
    v.push(97);
    v.push(99);
    v.push(104);
    v.push(109);
    v.push(101);
    v.push(110);
    v.push(116);
    v.push(59);
    v.push(32);
    v.push(102);
    v.push(105);
    v.push(108);
    v.push(101);
    v.push(110);
    v.push(97);
    v.push(109);
    v.push(101);
    v.push(61);
    v.push(34);
    crate::names::push_bytes(&mut v, edition);
    v.push(46);
    v.push(116);
    v.push(97);
    v.push(114);
    v.push(46);
    v.push(103);
    v.push(122);
    v.push(34);
    assert(v@ =~= spec_content_disposition(edition@));
    v
}

/// How to answer an archive download request.
#[derive(Debug)]
pub enum ArchiveDownloadPlan {
    /// The caller's copy is current: answer `304 Not Modified`.
    NotModified,
    /// Stream the archive, with this `Content-Disposition` value.
    Send { content_disposition: Vec<u8> },
}

/// Decides an archive download: `304` exactly when the request carried
/// `If-Modified-Since` (as Unix seconds) and the version's `mtime` is not
/// after it; otherwise the archive is sent as an attachment named
/// `<edition>.tar.gz`.
pub fn plan_archive_download(
    mtime: &UtcTime,
    if_modified_since_unix: Option<i64>,
    edition: &[u8],
) -> (r: ArchiveDownloadPlan)
    requires
        mtime.valid(),
    ensures
        match if_modified_since_unix {
            Some(n) if spec_unix_secs(*mtime) <= n => r is NotModified,
            _ => r matches ArchiveDownloadPlan::Send { content_disposition }
                && content_disposition@ == spec_content_disposition(edition@),
        },
{
    if let Some(n) = if_modified_since_unix {
        if mtime.to_unix_seconds() <= n {
            return ArchiveDownloadPlan::NotModified;
        }
    }
    ArchiveDownloadPlan::Send { content_disposition: content_disposition_of(edition) }
}

} // verus!
