//! Signing of firmware images for boot ROMs that checksum the vector table.
//!
//! The boot ROM sums the first eight little-endian 32-bit words of the vector
//! table and runs the user code only when the sum is zero modulo 2^32. The
//! library finds the vector table inside an ELF image (the start of the first
//! loadable segment placed at physical address zero) and stores the
//! two's-complement of the first seven words into the eighth.

pub mod checksum;
pub mod segment;
pub mod image;
