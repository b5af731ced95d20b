//! Bulk reading and building of ZIP archives.
//!
//! The archive format itself is the `zip` crate's business; this library
//! holds the rules around it: which entries are decoded and under which
//! names they are kept, where an extracted entry is written, and which
//! files a build visits and how they are named inside the archive.

pub mod codec;
pub mod error;
pub mod paths;
pub mod table;
pub mod zip_reader;
pub mod zip_writer;

pub use crate::error::ArchiveError;
pub use crate::error::CodecFault;
pub use crate::table::ArchiveEntry;
pub use crate::table::EntryTable;
pub use crate::zip_reader::decode_entry;
pub use crate::zip_reader::entry_count;
pub use crate::zip_reader::extract_entry;
pub use crate::zip_reader::extract_zip;
pub use crate::zip_reader::read_zip_contents_into_buffer;
pub use crate::zip_reader::ExtractedFile;
pub use crate::zip_writer::create_zip_from_files;
pub use crate::zip_writer::create_zip_from_folder;
pub use crate::zip_writer::BuildAction;
pub use crate::zip_writer::BuildPlan;
pub use crate::zip_writer::Found;
pub use crate::zip_writer::PendingPath;
