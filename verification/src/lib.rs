//! Extraction of files embedded in a Windows-installer package.
//!
//! An installer package stores its payload in a compressed cabinet whose
//! entries are named by internal file ids.  The real relative install path of
//! each entry is reconstructed from three relational tables (files,
//! components, directories).  This crate verifies that reconstruction: the
//! decoding of the `SHORT|Long` / `target:source` name encodings, the index
//! built from the table rows, the parent-chain walk that yields a directory
//! path, and the per-entry extraction outcome.
//!
//! Verified functions do not panic, with one stated exception: two calls
//! into the outside parsers — `msi::Package::open` and
//! `cab::Cabinet::read_file` — can themselves panic on crafted input that
//! their crates mishandle, and no check expressible here can fence them
//! (the trusted items' doc comments name the spots).  Callers that face
//! untrusted bytes should put their own panic boundary around opening a
//! package and extracting its entries.

pub mod decode;
pub mod error;
pub mod extract;
pub mod laws;
pub mod strmap;
pub mod traverse;

pub use decode::decode_filename;
pub use decode::decode_default_dir;
pub use error::Error;
pub use extract::MsiExtractor;
pub use traverse::MsiTrav;
pub use traverse::MsiTraverser;
