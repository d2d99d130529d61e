//! Reconstruction of the managed type and method universe of an
//! ahead-of-time compiled executable from the structures embedded in its
//! image: the variable-length metadata encoding, the bucketed hashtables,
//! the ReadyToRun header and the method tables of the data sections.

pub mod binary;
pub mod embedded_meta;
pub mod error;
pub mod ida;
pub mod native_format;
pub mod pe;
pub mod report;
pub mod text;
