//! Frame reading for Bruker TimsTOF acquisitions in the TDF container format.
//!
//! The crate decodes per-frame binary blobs into scan offsets, TOF indices and
//! intensities, assembles frame metadata from the rows of the relational
//! tables, and offers indexed access through [`frame_reader::FrameReader`].
//! Floating-point columns are carried as IEEE-754 binary64 bit patterns.

pub mod frame_reader;
pub mod ms_data;
pub mod sql_rows;
pub mod tdf_blob;
