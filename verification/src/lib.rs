//! Reader and writer for BioWare's Generic File Format (GFF), the container
//! that the games of the Aurora engine (Neverwinter Nights, The Witcher) and
//! Neverwinter Nights 2 keep their data in.
//!
//! A GFF file is a tree: a struct at its top, whose fields hold values,
//! other structs, or lists of structs. On disk the tree lies in six
//! sections, which a header locates: the structs, the fields, the labels of
//! the fields, the values that do not fit into a field, the field lists of
//! the structs, and the struct lists of the lists.
//!
//! - [`header`], [`index`] and [`raw`] describe that layout. [`raw::Gff`]
//!   reads and writes a file as it lies on disk, record by record.
//! - [`parser`] reads a file as a stream of tokens, without building the
//!   tree: [`parser::Parser`] gives one token on each request, and reads a
//!   value that a token tells of when it is asked to.
//! - [`ser`] writes a file: a [`ser::Serializer`] is handed the structs,
//!   fields and lists, and lays out the file when all are in.
//! - [`de`] reads a file by what is expected in it, for a layer that builds
//!   the values of a program.
//!
//! All of it works on files that are held in memory. The code is verified
//! with Verus: each function states what it returns, and the modules prove
//! what holds of them together, such as that the parser keeps to the
//! grammar of the tokens, and that it reads from a written file what the
//! serializer held.

pub mod de;
pub mod endian;
pub mod error;
pub mod header;
pub mod index;
pub mod label;
pub mod parser;
pub mod raw;
pub mod resref;
pub mod ser;
pub mod sig;
pub mod source;
pub mod string;
pub mod text;
pub mod value;
pub mod ver;

pub use label::Label;
pub use resref::ResRef;
pub use string::{Gender, GffString, Language, LocString, StrRef, StringKey, SubString};
