use vstd::prelude::*;
use vstd::utf8::encode_utf8;

use crate::codec::count_entries;
use crate::codec::decrypted_payload;
use crate::codec::encryption_flag;
use crate::codec::entry_is_encrypted;
use crate::codec::entry_name;
use crate::codec::entry_total;
use crate::codec::fault_of;
use crate::codec::plain_payload;
use crate::codec::read_decrypted;
use crate::codec::read_plain;
use crate::codec::stored_name;
use crate::error::error_for_fault;
use crate::error::from_codec;
use crate::error::ArchiveError;
use crate::paths::has_parent;
use crate::paths::join_path;
use crate::paths::joined;
use crate::paths::path_has_parent;
use crate::table::table_of;
use crate::table::ArchiveEntry;
use crate::table::EntryTable;

verus! {

/// One entry made ready for writing: where it goes and what it holds.
#[derive(Debug)]
pub struct ExtractedFile {
    pub destination: String,
    pub data: Vec<u8>,
}

/// The bytes of a credential.
pub open spec fn credential_bytes(password: Option<String>) -> Option<Seq<u8>> {
    match password {
        Some(text) => Some(encode_utf8(text@)),
        None => None,
    }
}

/// The view of a borrowed credential.
pub open spec fn borrowed_credential(credential: Option<&[u8]>) -> Option<Seq<u8>> {
    match credential {
        Some(bytes) => Some(bytes@),
        None => None,
    }
}

/// Whether the entry is encrypted while no credential is at hand.
pub open spec fn gated(bytes: Seq<u8>, index: nat, credential: Option<Seq<u8>>) -> bool {
    credential is None && encryption_flag(bytes, index) == Some(true)
}

/// What the codec decodes for an entry: an entry that is not encrypted is
/// decoded directly, whether or not a credential is at hand; an encrypted
/// one is decrypted with the credential, and without one there is nothing.
pub open spec fn payload_of(bytes: Seq<u8>, index: nat, credential: Option<Seq<u8>>) -> Option<
    Seq<u8>,
> {
    if encryption_flag(bytes, index) == Some(true) {
        match credential {
            Some(password) => decrypted_payload(bytes, index, password),
            None => None,
        }
    } else {
        plain_payload(bytes, index)
    }
}

/// Whether `index` is an ordinal of the archive.
pub open spec fn in_range(bytes: Seq<u8>, index: nat) -> bool {
    entry_total(bytes) is Some && index < entry_total(bytes)->Some_0
}

/// Whether the entry at `index` decodes under `credential`.
pub open spec fn decodable(bytes: Seq<u8>, index: nat, credential: Option<Seq<u8>>) -> bool {
    &&& in_range(bytes, index)
    &&& encryption_flag(bytes, index) is Some
    &&& !gated(bytes, index, credential)
    &&& stored_name(bytes, index) is Some
    &&& payload_of(bytes, index, credential) is Some
}

/// Whether `e` is the error owed for an entry that does not decode. An
/// ordinal out of range and a missing credential are told apart exactly; the
/// other failures are the codec's.
pub open spec fn decode_failure(
    bytes: Seq<u8>,
    index: nat,
    credential: Option<Seq<u8>>,
    e: ArchiveError,
) -> bool {
    &&& !decodable(bytes, index, credential)
    &&& if entry_total(bytes) is None {
        from_codec(e)
    } else if !in_range(bytes, index) {
        e == ArchiveError::InvalidEntryIndex
    } else if encryption_flag(bytes, index) is None {
        from_codec(e)
    } else if gated(bytes, index, credential) {
        e == ArchiveError::MissingCredential
    } else {
        from_codec(e)
    }
}

/// Whether `r` is the outcome owed for decoding one entry.
pub open spec fn decode_result(
    bytes: Seq<u8>,
    index: nat,
    credential: Option<Seq<u8>>,
    r: Result<ArchiveEntry, ArchiveError>,
) -> bool {
    match r {
        Ok(entry) => {
            &&& decodable(bytes, index, credential)
            &&& entry.name@ == stored_name(bytes, index)->Some_0
            &&& entry.data@ == payload_of(bytes, index, credential)->Some_0
        },
        Err(e) => decode_failure(bytes, index, credential, e),
    }
}

/// Whether every entry below `upto` decodes.
pub open spec fn all_decodable(bytes: Seq<u8>, credential: Option<Seq<u8>>, upto: nat) -> bool {
    forall|i: nat| i < upto ==> decodable(bytes, i, credential)
}

/// The name and payload of each of the first `count` entries, by ordinal.
pub open spec fn decoded_pairs(bytes: Seq<u8>, credential: Option<Seq<u8>>, count: nat) -> Seq<
    (Seq<char>, Seq<u8>),
> {
    Seq::new(
        count,
        |i: int|
            (stored_name(bytes, i as nat)->Some_0, payload_of(bytes, i as nat, credential)->Some_0),
    )
}

/// Whether `e` is the error owed for an archive that does not read: the
/// codec's where the directory is rejected, else that of the first entry
/// that does not decode.
pub open spec fn archive_failure(bytes: Seq<u8>, credential: Option<Seq<u8>>, e: ArchiveError) -> bool {
    match entry_total(bytes) {
        None => from_codec(e),
        Some(total) => exists|i: nat|
            i < total && all_decodable(bytes, credential, i) && decode_failure(
                bytes,
                i,
                credential,
                e,
            ),
    }
}

/// Whether `r` is the outcome owed for reading a whole archive into memory.
pub open spec fn read_result(
    bytes: Seq<u8>,
    credential: Option<Seq<u8>>,
    r: Result<EntryTable, ArchiveError>,
) -> bool {
    match r {
        Ok(table) => {
            &&& entry_total(bytes) is Some
            &&& all_decodable(bytes, credential, entry_total(bytes)->Some_0)
            &&& table.wf()
            &&& table@ == table_of(decoded_pairs(bytes, credential, entry_total(bytes)->Some_0))
        },
        Err(e) => archive_failure(bytes, credential, e),
    }
}

/// The number of entries in the archive held in `archive`.
pub fn entry_count(archive: &[u8]) -> (r: Result<usize, ArchiveError>)
    ensures
        r is Ok <==> entry_total(archive@) is Some,
        r is Ok ==> entry_total(archive@) == Some(r->Ok_0 as nat),
        r is Err ==> from_codec(r->Err_0),
{
    match count_entries(archive) {
        Ok(total) => Ok(total),
        Err(e) => Err(error_for_fault(fault_of(e))),
    }
}

/// Decodes the entry at `index`: its stored name and its whole payload,
/// decrypted with `credential` where the entry is encrypted. An encrypted
/// entry without a credential is refused; a credential for an entry that is
/// not encrypted is set aside.
pub fn decode_entry(archive: &[u8], index: usize, credential: Option<&[u8]>) -> (r: Result<
    ArchiveEntry,
    ArchiveError,
>)
    ensures
        decode_result(archive@, index as nat, borrowed_credential(credential), r),
{
    let total = match entry_count(archive) {
        Ok(total) => total,
        Err(e) => {
            return Err(e);
        },
    };
    if index >= total {
        return Err(ArchiveError::InvalidEntryIndex);
    }
    let encrypted = match entry_is_encrypted(archive, index) {
        Ok(flag) => flag,
        Err(e) => {
            return Err(error_for_fault(fault_of(e)));
        },
    };
    if encrypted && credential.is_none() {
        return Err(ArchiveError::MissingCredential);
    }
    let name = match entry_name(archive, index) {
        Ok(name) => name,
        Err(e) => {
            return Err(error_for_fault(fault_of(e)));
        },
    };
    let decoded = match credential {
        Some(password) if encrypted => read_decrypted(archive, index, password),
        _ => read_plain(archive, index),
    };
    match decoded {
        Ok(data) => Ok(ArchiveEntry { name, data }),
        Err(e) => Err(error_for_fault(fault_of(e))),
    }
}

fn borrow_credential(password: &Option<String>) -> (credential: Option<&[u8]>)
    ensures
        borrowed_credential(credential) == credential_bytes(*password),
{
    match password {
        Some(text) => Some(text.as_str().as_bytes()),
        None => None,
    }
}

/// Reads every entry of the archive held in `archive` into memory, under its
/// stored name. Of two entries with one name the later is kept.
pub fn read_zip_contents_into_buffer(archive: &[u8], password: Option<String>) -> (r: Result<
    EntryTable,
    ArchiveError,
>)
    ensures
        read_result(archive@, credential_bytes(password), r),
{
    let credential = borrow_credential(&password);
    let ghost cred = credential_bytes(password);
    let total = match entry_count(archive) {
        Ok(total) => total,
        Err(e) => {
            return Err(e);
        },
    };
    let mut table = EntryTable::new();
    let mut index: usize = 0;
    while index < total
        invariant
            index <= total,
            entry_total(archive@) == Some(total as nat),
            borrowed_credential(credential) == cred,
            cred == credential_bytes(password),
            all_decodable(archive@, cred, index as nat),
            table.wf(),
            table@ == table_of(decoded_pairs(archive@, cred, index as nat)),
        decreases total - index,
    {
        match decode_entry(archive, index, credential) {
            Ok(entry) => {
                proof {
                    let next = decoded_pairs(archive@, cred, (index + 1) as nat);
                    assert(next.drop_last() =~= decoded_pairs(archive@, cred, index as nat));
                    assert(next.last() == (entry.name@, entry.data@));
                }
                table.insert(entry.name, entry.data);
            },
            Err(e) => {
                proof {
                    let at = index as nat;
                    assert(at < total as nat && all_decodable(archive@, cred, at)
                        && decode_failure(archive@, at, cred, e));
                }
                return Err(e);
            },
        }
        index += 1;
    }
    Ok(table)
}

/// Whether `r` is the outcome owed for making one entry ready for writing
/// below `root`.
pub open spec fn extract_entry_result(
    bytes: Seq<u8>,
    index: nat,
    root: Seq<char>,
    credential: Option<Seq<u8>>,
    r: Result<ExtractedFile, ArchiveError>,
) -> bool {
    match r {
        Ok(file) => {
            &&& extractable(bytes, index, root, credential)
            &&& file.destination@ == joined(root, stored_name(bytes, index)->Some_0)
            &&& file.data@ == payload_of(bytes, index, credential)->Some_0
        },
        Err(e) => extract_failure(bytes, index, root, credential, e),
    }
}

/// Whether the entry decodes and its destination below `root` has a parent.
pub open spec fn extractable(bytes: Seq<u8>, index: nat, root: Seq<char>, credential: Option<Seq<u8>>) -> bool {
    decodable(bytes, index, credential) && has_parent(
        joined(root, stored_name(bytes, index)->Some_0),
    )
}

/// Whether `e` is the error owed for an entry that cannot be made ready.
pub open spec fn extract_failure(
    bytes: Seq<u8>,
    index: nat,
    root: Seq<char>,
    credential: Option<Seq<u8>>,
    e: ArchiveError,
) -> bool {
    if decodable(bytes, index, credential) {
        !has_parent(joined(root, stored_name(bytes, index)->Some_0)) && e
            == ArchiveError::InvalidEntryPath
    } else {
        decode_failure(bytes, index, credential, e)
    }
}

/// Whether every entry below `upto` can be made ready.
pub open spec fn all_extractable(
    bytes: Seq<u8>,
    root: Seq<char>,
    credential: Option<Seq<u8>>,
    upto: nat,
) -> bool {
    forall|i: nat| i < upto ==> extractable(bytes, i, root, credential)
}

/// Whether slot `i` of `files` is the entry at ordinal `i`.
pub open spec fn file_matches(
    bytes: Seq<u8>,
    root: Seq<char>,
    credential: Option<Seq<u8>>,
    files: Seq<ExtractedFile>,
    i: int,
) -> bool {
    &&& files[i].destination@ == joined(root, stored_name(bytes, i as nat)->Some_0)
    &&& files[i].data@ == payload_of(bytes, i as nat, credential)->Some_0
}

/// Whether `r` is the outcome owed for making a whole archive ready for
/// writing below `root`.
pub open spec fn extract_result(
    bytes: Seq<u8>,
    root: Seq<char>,
    credential: Option<Seq<u8>>,
    r: Result<Vec<ExtractedFile>, ArchiveError>,
) -> bool {
    match r {
        Ok(files) => {
            &&& entry_total(bytes) == Some(files@.len())
            &&& all_extractable(bytes, root, credential, files@.len())
            &&& forall|i: int|
                0 <= i < files@.len() ==> file_matches(bytes, root, credential, files@, i)
        },
        Err(e) => match entry_total(bytes) {
            None => from_codec(e),
            Some(total) => exists|i: nat|
                i < total && all_extractable(bytes, root, credential, i) && extract_failure(
                    bytes,
                    i,
                    root,
                    credential,
                    e,
                ),
        },
    }
}

/// Decodes the entry at `index` and joins its stored name to `extract_path`.
/// The name is taken as it is stored: one that climbs out of `extract_path`
/// is joined like any other.
pub fn extract_entry(
    archive: &[u8],
    index: usize,
    extract_path: &str,
    credential: Option<&[u8]>,
) -> (r: Result<ExtractedFile, ArchiveError>)
    ensures
        extract_entry_result(
            archive@,
            index as nat,
            extract_path@,
            borrowed_credential(credential),
            r,
        ),
{
    match decode_entry(archive, index, credential) {
        Ok(entry) => {
            let destination = join_path(extract_path, entry.name.as_str());
            if path_has_parent(destination.as_str()) {
                Ok(ExtractedFile { destination, data: entry.data })
            } else {
                Err(ArchiveError::InvalidEntryPath)
            }
        },
        Err(e) => Err(e),
    }
}

/// Makes every entry of the archive held in `archive` ready for writing
/// below `extract_path`, by ordinal.
pub fn extract_zip(archive: &[u8], extract_path: String, password: Option<String>) -> (r: Result<
    Vec<ExtractedFile>,
    ArchiveError,
>)
    ensures
        extract_result(archive@, extract_path@, credential_bytes(password), r),
{
    let credential = borrow_credential(&password);
    let ghost cred = credential_bytes(password);
    let total = match entry_count(archive) {
        Ok(total) => total,
        Err(e) => {
            return Err(e);
        },
    };
    let mut files: Vec<ExtractedFile> = Vec::new();
    let mut index: usize = 0;
    while index < total
        invariant
            index <= total,
            files@.len() == index,
            entry_total(archive@) == Some(total as nat),
            borrowed_credential(credential) == cred,
            cred == credential_bytes(password),
            all_extractable(archive@, extract_path@, cred, index as nat),
            forall|i: int|
                0 <= i < files@.len() ==> file_matches(archive@, extract_path@, cred, files@, i),
        decreases total - index,
    {
        match extract_entry(archive, index, extract_path.as_str(), credential) {
            Ok(file) => {
                let ghost before = files@;
                files.push(file);
                proof {
                    assert forall|i: int| 0 <= i < files@.len() implies file_matches(
                        archive@,
                        extract_path@,
                        cred,
                        files@,
                        i,
                    ) by {
                        if i < before.len() {
                            assert(files@[i] == before[i]);
                            assert(file_matches(archive@, extract_path@, cred, before, i));
                        }
                    }
                }
            },
            Err(e) => {
                proof {
                    let at = index as nat;
                    assert(at < total as nat && all_extractable(archive@, extract_path@, cred, at)
                        && extract_failure(archive@, at, extract_path@, cred, e));
                }
                return Err(e);
            },
        }
        index += 1;
    }
    Ok(files)
}

/// Reading is a function of the archive and the credential: two outcomes
/// owed for the same bytes and credential agree on success and, where they
/// succeed, on the mapping.
pub proof fn read_twice_agrees(
    bytes: Seq<u8>,
    credential: Option<Seq<u8>>,
    first: Result<EntryTable, ArchiveError>,
    second: Result<EntryTable, ArchiveError>,
)
    requires
        read_result(bytes, credential, first),
        read_result(bytes, credential, second),
    ensures
        first is Ok <==> second is Ok,
        first is Ok ==> first->Ok_0@ == second->Ok_0@,
{
}

/// A credential plays no part where no entry is encrypted: with and without
/// it, reading succeeds on the same archives and gives the same mapping.
pub proof fn credential_unused_on_plain_archive(
    bytes: Seq<u8>,
    password: Seq<u8>,
    without: Result<EntryTable, ArchiveError>,
    with: Result<EntryTable, ArchiveError>,
)
    requires
        entry_total(bytes) is Some,
        forall|i: nat| i < entry_total(bytes)->Some_0 ==> encryption_flag(bytes, i) == Some(false),
        read_result(bytes, None, without),
        read_result(bytes, Some(password), with),
    ensures
        without is Ok <==> with is Ok,
        without is Ok ==> without->Ok_0@ == with->Ok_0@,
{
    let total = entry_total(bytes)->Some_0;
    let given = Some(password);
    if without is Ok {
        assert forall|i: nat| i < total implies decodable(bytes, i, given) by {
            assert(decodable(bytes, i, None));
            assert(encryption_flag(bytes, i) == Some(false));
        }
        assert(all_decodable(bytes, given, total));
        assert(decoded_pairs(bytes, None, total) =~= decoded_pairs(bytes, given, total));
    }
    if with is Ok {
        assert forall|i: nat| i < total implies decodable(bytes, i, None) by {
            assert(decodable(bytes, i, given));
            assert(encryption_flag(bytes, i) == Some(false));
        }
        assert(all_decodable(bytes, None, total));
    }
}

/// Without a credential an archive with an encrypted entry does not read,
/// and where that entry is the first that fails, the error is the missing
/// credential.
pub proof fn encrypted_entry_needs_credential(
    bytes: Seq<u8>,
    index: nat,
    r: Result<EntryTable, ArchiveError>,
)
    requires
        read_result(bytes, None, r),
        in_range(bytes, index),
        encryption_flag(bytes, index) == Some(true),
    ensures
        r is Err,
        all_decodable(bytes, None, index) ==> r == Err::<EntryTable, ArchiveError>(
            ArchiveError::MissingCredential,
        ),
{
    assert(!decodable(bytes, index, None));
    if all_decodable(bytes, None, index) {
        let e = r->Err_0;
        let i = choose|i: nat|
            i < entry_total(bytes)->Some_0 && all_decodable(bytes, None, i) && decode_failure(
                bytes,
                i,
                None,
                e,
            );
        if i < index {
            assert(decodable(bytes, i, None));
        }
        if index < i {
            assert(decodable(bytes, index, None));
        }
        assert(r->Err_0 == ArchiveError::MissingCredential);
    }
}

} // verus!
