//! The WOFF2 header, table directory and collection directory.

pub mod collection_directory;
pub mod header;
pub mod table_directory;
