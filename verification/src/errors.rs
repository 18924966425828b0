//! The service error taxonomy.
//!
//! Outside failures cross the trusted boundary as plain byte strings; these
//! enums give them the kinds the service distinguishes.  `ErrorDTO` is the
//! JSON shape errors take on the wire, and the status mapping says which
//! HTTP status each lookup failure answers with.

use vstd::prelude::*;
use crate::names::dec_digits;

verus! {

/// `Unknown MaxMind database edition`
pub open spec fn unknown_edition_msg() -> Seq<u8> {
    seq![85u8, 110, 107, 110, 111, 119, 110, 32, 77, 97, 120, 77, 105, 110, 100, 32, 100, 97, 116, 97, 98, 97, 115, 101, 32, 101, 100, 105, 116, 105, 111, 110]
}

/// Executable mirror of [`unknown_edition_msg`].
pub fn unknown_edition_msg_vec() -> (r: Vec<u8>)
    ensures
        r@ == unknown_edition_msg(),
{
    let mut v: Vec<u8> = Vec::new();
    v.push(85);
    v.push(110);
    v.push(107);
    v.push(110);
    v.push(111);
    v.push(119);
    v.push(110);
    v.push(32);
    v.push(77);
    v.push(97);
    v.push(120);
    v.push(77);
    v.push(105);
    v.push(110);
    v.push(100);
    v.push(32);
    v.push(100);
    v.push(97);
    v.push(116);
    v.push(97);
    v.push(98);
    v.push(97);
    v.push(115);
    v.push(101);
    v.push(32);
    v.push(101);
    v.push(100);
    v.push(105);
    v.push(116);
    v.push(105);
    v.push(111);
    v.push(110);
    assert(v@ =~= unknown_edition_msg());
    v
}

/// `MaxMind database is missing`
pub open spec fn missing_database_msg() -> Seq<u8> {
    seq![77u8, 97, 120, 77, 105, 110, 100, 32, 100, 97, 116, 97, 98, 97, 115, 101, 32, 105, 115, 32, 109, 105, 115, 115, 105, 110, 103]
}

/// Executable mirror of [`missing_database_msg`].
pub fn missing_database_msg_vec() -> (r: Vec<u8>)
    ensures
        r@ == missing_database_msg(),
{
    let mut v: Vec<u8> = Vec::new();
    v.push(77);
    v.push(97);
    v.push(120);
    v.push(77);
    v.push(105);
    v.push(110);
    v.push(100);
    v.push(32);
    v.push(100);
    v.push(97);
    v.push(116);
    v.push(97);
    v.push(98);
    v.push(97);
    v.push(115);
    v.push(101);
    v.push(32);
    v.push(105);
    v.push(115);
    v.push(32);
    v.push(109);
    v.push(105);
    v.push(115);
    v.push(115);
    v.push(105);
    v.push(110);
    v.push(103);
    assert(v@ =~= missing_database_msg());
    v
}

/// `Invalid file name`
pub open spec fn invalid_file_name_msg() -> Seq<u8> {
    seq![73u8, 110, 118, 97, 108, 105, 100, 32, 102, 105, 108, 101, 32, 110, 97, 109, 101]
}

/// Executable mirror of [`invalid_file_name_msg`].
pub fn invalid_file_name_msg_vec() -> (r: Vec<u8>)
    ensures
        r@ == invalid_file_name_msg(),
{
    let mut v: Vec<u8> = Vec::new();
    v.push(73);
    v.push(110);
    v.push(118);
    v.push(97);
    v.push(108);
    v.push(105);
    v.push(100);
    v.push(32);
    v.push(102);
    v.push(105);
    v.push(108);
    v.push(101);
    v.push(32);
    v.push(110);
    v.push(97);
    v.push(109);
    v.push(101);
    assert(v@ =~= invalid_file_name_msg());
    v
}

/// `ZIC command failed with exit code `
pub open spec fn zic_failed_msg() -> Seq<u8> {
    seq![90u8, 73, 67, 32, 99, 111, 109, 109, 97, 110, 100, 32, 102, 97, 105, 108, 101, 100, 32, 119, 105, 116, 104, 32, 101, 120, 105, 116, 32, 99, 111, 100, 101, 32]
}

/// Executable mirror of [`zic_failed_msg`].
pub fn zic_failed_msg_vec() -> (r: Vec<u8>)
    ensures
        r@ == zic_failed_msg(),
{
    let mut v: Vec<u8> = Vec::new();
    v.push(90);
    v.push(73);
    v.push(67);
    v.push(32);
    v.push(99);
    v.push(111);
    v.push(109);
    v.push(109);
    v.push(97);
    v.push(110);
    v.push(100);
    v.push(32);
    v.push(102);
    v.push(97);
    v.push(105);
    v.push(108);
    v.push(101);
    v.push(100);
    v.push(32);
    v.push(119);
    v.push(105);
    v.push(116);
    v.push(104);
    v.push(32);
    v.push(101);
    v.push(120);
    v.push(105);
    v.push(116);
    v.push(32);
    v.push(99);
    v.push(111);
    v.push(100);
    v.push(101);
    v.push(32);
    assert(v@ =~= zic_failed_msg());
    v
}

/// `HTTP status error: `
pub open spec fn http_status_msg() -> Seq<u8> {
    seq![72u8, 84, 84, 80, 32, 115, 116, 97, 116, 117, 115, 32, 101, 114, 114, 111, 114, 58, 32]
}

/// Executable mirror of [`http_status_msg`].
pub fn http_status_msg_vec() -> (r: Vec<u8>)
    ensures
        r@ == http_status_msg(),
{
    let mut v: Vec<u8> = Vec::new();
    v.push(72);
    v.push(84);
    v.push(84);
    v.push(80);
    v.push(32);
    v.push(115);
    v.push(116);
    v.push(97);
    v.push(116);
    v.push(117);
    v.push(115);
    v.push(32);
    v.push(101);
    v.push(114);
    v.push(114);
    v.push(111);
    v.push(114);
    v.push(58);
    v.push(32);
    assert(v@ =~= http_status_msg());
    v
}

/// Failures of the archive store and refresher.
#[derive(Debug)]
pub enum FileServiceError {
    /// A filesystem operation failed.
    Io(Vec<u8>),
    /// The HTTP transport failed.
    Transport(Vec<u8>),
    /// The upstream answered a status that is neither success nor `304`.
    HttpStatus(u16),
}

impl FileServiceError {
    /// The message recorded for this failure.
    pub open spec fn spec_message(&self) -> Seq<u8> {
        match self {
            FileServiceError::Io(m) => m@,
            FileServiceError::Transport(m) => m@,
            FileServiceError::HttpStatus(s) => http_status_msg() + dec_digits(*s as int),
        }
    }

    /// Executable mirror of [`FileServiceError::spec_message`].
    pub fn message(&self) -> (r: Vec<u8>)
        ensures
            r@ == self.spec_message(),
    {
        match self {
            FileServiceError::Io(m) => vstd::slice::slice_to_vec(m.as_slice()),
            FileServiceError::Transport(m) => vstd::slice::slice_to_vec(m.as_slice()),
            FileServiceError::HttpStatus(s) => {
                let mut v = http_status_msg_vec();
                let digits = crate::names::format_u64(*s as u64);
                crate::names::push_bytes(&mut v, digits.as_slice());
                v
            },
        }
    }
}

/// Failures of the reader pool and lookup facade.
#[derive(Debug)]
pub enum MaxMindServiceError {
    /// A filesystem operation failed.
    Io(Vec<u8>),
    /// The database reader refused the file or the query.
    MaxMindDb(Vec<u8>),
    /// The archive store or refresher failed underneath.
    FileService(FileServiceError),
    /// A background task was lost.
    Join(Vec<u8>),
    /// The requested database edition is not configured.
    UnknownEdition,
    /// The edition has no loaded database.
    MissingDatabase,
}

impl MaxMindServiceError {
    /// The message recorded for this failure.
    pub open spec fn spec_message(&self) -> Seq<u8> {
        match self {
            MaxMindServiceError::Io(m) => m@,
            MaxMindServiceError::MaxMindDb(m) => m@,
            MaxMindServiceError::FileService(e) => e.spec_message(),
            MaxMindServiceError::Join(m) => m@,
            MaxMindServiceError::UnknownEdition => unknown_edition_msg(),
            MaxMindServiceError::MissingDatabase => missing_database_msg(),
        }
    }

    /// Executable mirror of [`MaxMindServiceError::spec_message`].
    pub fn message(&self) -> (r: Vec<u8>)
        ensures
            r@ == self.spec_message(),
    {
        match self {
            MaxMindServiceError::Io(m) => vstd::slice::slice_to_vec(m.as_slice()),
            MaxMindServiceError::MaxMindDb(m) => vstd::slice::slice_to_vec(m.as_slice()),
            MaxMindServiceError::FileService(e) => e.message(),
            MaxMindServiceError::Join(m) => vstd::slice::slice_to_vec(m.as_slice()),
            MaxMindServiceError::UnknownEdition => unknown_edition_msg_vec(),
            MaxMindServiceError::MissingDatabase => missing_database_msg_vec(),
        }
    }
}

/// Failures of the timezone table builder.
#[derive(Debug)]
pub enum TimezoneServiceError {
    /// A filesystem operation failed.
    Io(Vec<u8>),
    /// The archive store or refresher failed underneath.
    FileService(FileServiceError),
    /// A background task was lost.
    Join(Vec<u8>),
    /// A directory entry's name is not readable text.
    InvalidFileName,
    /// The zoneinfo compiler exited with a failure code.
    Zic(i32),
}

impl TimezoneServiceError {
    /// The message recorded for this failure.
    pub open spec fn spec_message(&self) -> Seq<u8> {
        match self {
            TimezoneServiceError::Io(m) => m@,
            TimezoneServiceError::FileService(e) => e.spec_message(),
            TimezoneServiceError::Join(m) => m@,
            TimezoneServiceError::InvalidFileName => invalid_file_name_msg(),
            TimezoneServiceError::Zic(code) => zic_failed_msg() + (if *code >= 0 {
                dec_digits(*code as int)
            } else {
                seq![45u8] + dec_digits(-(*code as int))
            }),
        }
    }

    /// Executable mirror of [`TimezoneServiceError::spec_message`].
    pub fn message(&self) -> (r: Vec<u8>)
        ensures
            r@ == self.spec_message(),
    {
        match self {
            TimezoneServiceError::Io(m) => vstd::slice::slice_to_vec(m.as_slice()),
            TimezoneServiceError::FileService(e) => e.message(),
            TimezoneServiceError::Join(m) => vstd::slice::slice_to_vec(m.as_slice()),
            TimezoneServiceError::InvalidFileName => invalid_file_name_msg_vec(),
            TimezoneServiceError::Zic(code) => {
                let mut v = zic_failed_msg_vec();
                if *code >= 0 {
                    let digits = crate::names::format_u64(*code as u64);
                    crate::names::push_bytes(&mut v, digits.as_slice());
                } else {
                    v.push(45);
                    let magnitude: u64 = (-((*code) as i64)) as u64;
                    let digits = crate::names::format_u64(magnitude);
                    crate::names::push_bytes(&mut v, digits.as_slice());
                    assert(magnitude as int == -(*code as int));
                }
                v
            },
        }
    }
}

/// The JSON shape of an error answer: an HTTP status and a message.
pub struct ErrorDTO {
    pub status: u16,
    pub error: Vec<u8>,
}

impl ErrorDTO {
    /// An error answer from a status and an owned message.
    pub fn new(status: u16, error: Vec<u8>) -> (r: ErrorDTO)
        ensures
            r.status == status,
            r.error@ == error@,
    {
        ErrorDTO { status, error }
    }

    /// An error answer from a status and a fixed message.
    pub fn new_static(status: u16, error: &[u8]) -> (r: ErrorDTO)
        ensures
            r.status == status,
            r.error@ == error@,
    {
        ErrorDTO { status, error: vstd::slice::slice_to_vec(error) }
    }
}

/// The HTTP status a lookup failure answers with: `404` for an unknown
/// edition, `503` for a missing database, `500` for everything else.
pub fn lookup_error_status(e: &MaxMindServiceError) -> (r: u16)
    ensures
        r == match e {
            MaxMindServiceError::UnknownEdition => 404u16,
            MaxMindServiceError::MissingDatabase => 503u16,
            _ => 500u16,
        },
{
    match e {
        MaxMindServiceError::UnknownEdition => 404,
        MaxMindServiceError::MissingDatabase => 503,
        _ => 500,
    }
}

} // verus!
