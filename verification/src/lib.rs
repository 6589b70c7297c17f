//! Parser for the XYZ molecular-geometry text format.
//!
//! An XYZ record is an atom-count header line, a free-form title line, and
//! exactly that many atom lines, each `<symbol> <x> <y> <z>`.  Malformed input
//! is reported as a diagnostic that carries the failing position and can be
//! rendered as an annotated source snippet.

pub mod diag;
pub mod laws;
pub mod lex;
pub mod record;

pub use diag::ErrorKind;
pub use diag::ParseChemfileError;
pub use record::Xyz;
pub use record::XyzAtom;
