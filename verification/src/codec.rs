use std::io::Cursor;
use std::io::Read;
use vstd::prelude::*;
use zip::result::ZipError;
use zip::ZipArchive;

use crate::error::CodecFault;

// The calls into the `zip` crate. Each works on a fresh view of the archive's
// bytes, which parses the directory and copies no payload. What a call gives
// is a function of the bytes and the ordinal alone; it is given a name here
// and believed, not proved.

verus! {

/// The error type of the `zip` crate, `zip::result::ZipError`. Its values are
/// carried through as they are; `fault_of` tells their variants apart.
#[verifier::external_type_specification]
#[verifier::external_body]
pub struct ExZipError(ZipError);

/// The number of entries that `zip::ZipArchive::new` finds in the central
/// directory of these bytes; `None` where it rejects them.
pub uninterp spec fn entry_total(bytes: Seq<u8>) -> Option<nat>;

/// The encryption flag that `ZipArchive::by_index_data` reports for the
/// entry at this ordinal; `None` where the lookup fails.
pub uninterp spec fn encryption_flag(bytes: Seq<u8>, index: nat) -> Option<bool>;

/// The name under which the entry at this ordinal is stored, as
/// `ZipFileEntry::name` gives it; `None` where the lookup fails.
pub uninterp spec fn stored_name(bytes: Seq<u8>, index: nat) -> Option<Seq<char>>;

/// The payload that `ZipArchive::by_index` decodes for the entry at this
/// ordinal; `None` where decoding fails.
pub uninterp spec fn plain_payload(bytes: Seq<u8>, index: nat) -> Option<Seq<u8>>;

/// The payload that `ZipArchive::by_index_decrypt` decodes for the entry at
/// this ordinal with this password; `None` where decoding fails.
pub uninterp spec fn decrypted_payload(bytes: Seq<u8>, index: nat, password: Seq<u8>) -> Option<
    Seq<u8>,
>;

/// Calls `zip::ZipArchive::new` on a cursor over the bytes and then
/// `ZipArchive::len`. Trusted: the count is the one named `entry_total`, and
/// the call fails exactly where that name is `None`.
#[verifier::external_body]
pub(crate) fn count_entries(archive: &[u8]) -> (r: Result<usize, ZipError>)
    ensures
        r is Ok <==> entry_total(archive@) is Some,
        r is Ok ==> r->Ok_0 as nat == entry_total(archive@)->Some_0,
{
    Ok(ZipArchive::new(Cursor::new(archive))?.len())
}

/// Calls `ZipArchive::by_index_data` and `ZipFileEntry::encrypted` on a fresh
/// view of the bytes. Trusted: the flag is the one named `encryption_flag`.
#[verifier::external_body]
pub(crate) fn entry_is_encrypted(archive: &[u8], index: usize) -> (r: Result<bool, ZipError>)
    ensures
        r is Ok <==> encryption_flag(archive@, index as nat) is Some,
        r is Ok ==> r->Ok_0 == encryption_flag(archive@, index as nat)->Some_0,
{
    Ok(ZipArchive::new(Cursor::new(archive))?.by_index_data(index)?.encrypted())
}

/// Calls `ZipArchive::by_index_data` and `ZipFileEntry::name` on a fresh view
/// of the bytes. Trusted: the text is the one named `stored_name`.
#[verifier::external_body]
pub(crate) fn entry_name(archive: &[u8], index: usize) -> (r: Result<String, ZipError>)
    ensures
        r is Ok <==> stored_name(archive@, index as nat) is Some,
        r is Ok ==> r->Ok_0@ == stored_name(archive@, index as nat)->Some_0,
{
    Ok(ZipArchive::new(Cursor::new(archive))?.by_index_data(index)?.name()?.into_owned())
}

/// Calls `ZipArchive::by_index` on a fresh view of the bytes and reads the
/// entry to its end. Trusted: the bytes read are those named `plain_payload`.
#[verifier::external_body]
pub(crate) fn read_plain(archive: &[u8], index: usize) -> (r: Result<Vec<u8>, ZipError>)
    ensures
        r is Ok <==> plain_payload(archive@, index as nat) is Some,
        r is Ok ==> r->Ok_0@ == plain_payload(archive@, index as nat)->Some_0,
{
    let mut view = ZipArchive::new(Cursor::new(archive))?;
    let mut entry = view.by_index(index)?;
    let mut data: Vec<u8> = Vec::new();
    entry.read_to_end(&mut data)?;
    Ok(data)
}

/// Calls `ZipArchive::by_index_decrypt` on a fresh view of the bytes and
/// reads the entry to its end. Trusted: the bytes read are those named
/// `decrypted_payload`. Nothing is claimed of how they relate to the bytes
/// that were encrypted: the legacy cipher accepts some wrong passwords.
#[verifier::external_body]
pub(crate) fn read_decrypted(archive: &[u8], index: usize, password: &[u8]) -> (r: Result<
    Vec<u8>,
    ZipError,
>)
    ensures
        r is Ok <==> decrypted_payload(archive@, index as nat, password@) is Some,
        r is Ok ==> r->Ok_0@ == decrypted_payload(archive@, index as nat, password@)->Some_0,
{
    let mut view = ZipArchive::new(Cursor::new(archive))?;
    let mut entry = view.by_index_decrypt(index, password)?;
    let mut data: Vec<u8> = Vec::new();
    entry.read_to_end(&mut data)?;
    Ok(data)
}

/// Tells the variants of `zip::result::ZipError` apart. Nothing is claimed of
/// which fault comes back.
#[verifier::external_body]
pub(crate) fn fault_of(e: ZipError) -> CodecFault {
    match e {
        ZipError::Io(_) => CodecFault::Io,
        ZipError::InvalidArchive(_) => CodecFault::InvalidArchive,
        ZipError::UnsupportedArchive(_) => CodecFault::UnsupportedArchive,
        ZipError::FileNotFound => CodecFault::FileNotFound,
        ZipError::InvalidPassword => CodecFault::InvalidPassword,
        ZipError::CompressionMethodNotSupported(_) => CodecFault::UnsupportedMethod,
        _ => CodecFault::Other,
    }
}

} // verus!
