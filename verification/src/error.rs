use vstd::prelude::*;

verus! {

/// The ways in which reading or building an archive fails.
#[derive(Clone, Copy, Debug, PartialEq, Eq, Structural)]
pub enum ArchiveError {
    /// A file could not be opened, read, created or written.
    Io,
    /// The archive file could not be mapped into memory.
    Mapping,
    /// The archive's directory or one of its headers is malformed.
    CorruptArchive,
    /// The archive is well formed but uses something the codec cannot handle.
    UnsupportedArchive,
    /// An entry ordinal is not below the archive's entry count.
    InvalidEntryIndex,
    /// An entry is encrypted and no credential was given.
    MissingCredential,
    /// The cipher's own check rejected the credential.
    Decryption,
    /// A name does not resolve to a usable path.
    InvalidEntryPath,
    /// A relative path cannot be written as UTF-8 text.
    NonUtf8Path,
    /// The archive to build already exists.
    OutputAlreadyExists,
}

/// The failure classes that the codec tells apart.
#[derive(Clone, Copy, Debug, PartialEq, Eq, Structural)]
pub enum CodecFault {
    /// Reading the archive's bytes failed: a payload ends early, does not
    /// decompress, or does not match its checksum.
    Io,
    /// The directory or a header is malformed.
    InvalidArchive,
    /// The archive asks for something the codec does not offer.
    UnsupportedArchive,
    /// No entry stands at the ordinal asked for.
    FileNotFound,
    /// The cipher's verification rejected the password.
    InvalidPassword,
    /// An entry is compressed by a method the codec does not know.
    UnsupportedMethod,
    /// A failure of a class added to the codec later.
    Other,
}

/// The library error that stands for a codec fault. The codec only ever
/// reads bytes held in memory, so a failed read means damaged content.
pub open spec fn fault_error(fault: CodecFault) -> ArchiveError {
    match fault {
        CodecFault::Io => ArchiveError::CorruptArchive,
        CodecFault::InvalidArchive => ArchiveError::CorruptArchive,
        CodecFault::UnsupportedArchive => ArchiveError::UnsupportedArchive,
        CodecFault::FileNotFound => ArchiveError::InvalidEntryIndex,
        CodecFault::InvalidPassword => ArchiveError::Decryption,
        CodecFault::UnsupportedMethod => ArchiveError::UnsupportedArchive,
        CodecFault::Other => ArchiveError::CorruptArchive,
    }
}

/// Whether an error is one that a codec fault can turn into.
pub open spec fn from_codec(e: ArchiveError) -> bool {
    exists|fault: CodecFault| e == fault_error(fault)
}

/// Turns a codec fault into the library's error.
pub fn error_for_fault(fault: CodecFault) -> (e: ArchiveError)
    ensures
        e == fault_error(fault),
        from_codec(e),
{
    match fault {
        CodecFault::Io => ArchiveError::CorruptArchive,
        CodecFault::InvalidArchive => ArchiveError::CorruptArchive,
        CodecFault::UnsupportedArchive => ArchiveError::UnsupportedArchive,
        CodecFault::FileNotFound => ArchiveError::InvalidEntryIndex,
        CodecFault::InvalidPassword => ArchiveError::Decryption,
        CodecFault::UnsupportedMethod => ArchiveError::UnsupportedArchive,
        CodecFault::Other => ArchiveError::CorruptArchive,
    }
}

} // verus!
