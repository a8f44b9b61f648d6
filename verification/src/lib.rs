//! Verified core of a batch generator for 3D-printable filament swatches.
//!
//! The library turns a delimited inventory of filament materials into the
//! exact inputs of an external parametric-CAD renderer: it parses inventory
//! text into typed records, derives each record's canonical identity and
//! output path, reconciles the inventory against already-produced outputs,
//! builds the renderer's parameter document from a shared baseline, and frames
//! that document as JSON text together with the renderer's argument list.
//! All functions here are pure; the surrounding binary performs the file and
//! subprocess work and hands plain values in and out.

pub mod batch;
pub mod inventory;
pub mod json;
pub mod scan;
pub mod swatch;
pub mod text;
