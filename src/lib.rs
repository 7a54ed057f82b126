//! Reading, validating and relocating the metadata of an ELF32 image held
//! in memory as a byte buffer.
//!
//! Every read is bounds-checked against the buffer that holds the image, and
//! every write against the destination buffer: malformed input yields an
//! error, never an access outside either buffer.
pub mod bytes;
pub mod header;
pub mod image;
pub mod relocate;
