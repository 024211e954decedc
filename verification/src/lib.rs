//! Decoder for macOS FSEvents daemon archive files: gzip-compressed binary
//! logs of filesystem change records. The library decompresses an archive,
//! frames it into pages by magic-byte scanning, validates each page header,
//! and extracts the variable-length change records, recovering gracefully
//! from truncation and corruption.

pub mod archive;
pub mod args;
pub mod discovery;
pub mod errors;
pub mod flags;
pub mod header;
pub mod laws;
pub mod page;
pub mod registry;

pub use archive::Archive;
pub use args::ArgParse;
pub use args::ArgsOutputFormat;
pub use errors::ParseError;
pub use flags::EventFlag;
pub use header::PageHeader;
pub use header::Version;
pub use page::Entry;
pub use page::Page;
pub use registry::Registry;
